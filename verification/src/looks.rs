//! Rewriting the asset references of every element of every tab.
use crate::model::{
    GraphPosition, GraphPositionV, KeyPosition, KeyPositionV, KnobPosition, KnobPositionV,
    ReactiveSpritePosition, ReactiveSpritePositionV, SpritePose, SpritePoseV, StatPosition,
    StatPositionV,
};
use crate::strmap::{Dup, StrMap};
use vstd::prelude::*;

verus! {

/// Elements whose look is a key element: keys, statistics, graphs and knobs.
pub trait HasLook: Sized + DeepView + Dup {
    spec fn look_of(v: Self::V) -> KeyPositionV;

    spec fn with_look(v: Self::V, l: KeyPositionV) -> Self::V;

    proof fn lemma_with_look(v: Self::V, l: KeyPositionV)
        ensures
            Self::look_of(Self::with_look(v, l)) == l,
            Self::with_look(v, Self::look_of(v)) == v,
            forall|l2: KeyPositionV| Self::with_look(Self::with_look(v, l), l2) == Self::with_look(v, l2),
    ;

    fn look(&self) -> (r: &KeyPosition)
        ensures
            r.deep_view() == Self::look_of(self.deep_view()),
    ;

    fn set_look(&mut self, l: KeyPosition)
        ensures
            final(self).deep_view() == Self::with_look(old(self).deep_view(), l.deep_view()),
    ;
}

impl HasLook for KeyPosition {
    open spec fn look_of(v: KeyPositionV) -> KeyPositionV {
        v
    }

    open spec fn with_look(v: KeyPositionV, l: KeyPositionV) -> KeyPositionV {
        l
    }

    proof fn lemma_with_look(v: KeyPositionV, l: KeyPositionV) {
    }

    fn look(&self) -> (r: &KeyPosition) {
        self
    }

    fn set_look(&mut self, l: KeyPosition) {
        *self = l;
    }
}

impl HasLook for StatPosition {
    open spec fn look_of(v: StatPositionV) -> KeyPositionV {
        v.position
    }

    open spec fn with_look(v: StatPositionV, l: KeyPositionV) -> StatPositionV {
        StatPositionV { position: l }
    }

    proof fn lemma_with_look(v: StatPositionV, l: KeyPositionV) {
    }

    fn look(&self) -> (r: &KeyPosition) {
        &self.position
    }

    fn set_look(&mut self, l: KeyPosition) {
        self.position = l;
    }
}

impl HasLook for GraphPosition {
    open spec fn look_of(v: GraphPositionV) -> KeyPositionV {
        v.position
    }

    open spec fn with_look(v: GraphPositionV, l: KeyPositionV) -> GraphPositionV {
        GraphPositionV { position: l }
    }

    proof fn lemma_with_look(v: GraphPositionV, l: KeyPositionV) {
    }

    fn look(&self) -> (r: &KeyPosition) {
        &self.position
    }

    fn set_look(&mut self, l: KeyPosition) {
        self.position = l;
    }
}

impl HasLook for KnobPosition {
    open spec fn look_of(v: KnobPositionV) -> KeyPositionV {
        v.position
    }

    open spec fn with_look(v: KnobPositionV, l: KeyPositionV) -> KnobPositionV {
        KnobPositionV { position: l, ..v }
    }

    proof fn lemma_with_look(v: KnobPositionV, l: KeyPositionV) {
    }

    fn look(&self) -> (r: &KeyPosition) {
        &self.position
    }

    fn set_look(&mut self, l: KeyPosition) {
        self.position = l;
    }
}

/// One rewrite of an optional asset reference, with state that only grows.
pub trait RefStep: Sized {
    /// What the state keeps true.
    spec fn inv(&self) -> bool;

    /// `new` is an acceptable rewrite of `old` for this state.
    spec fn ok(&self, old: Option<Seq<char>>, new: Option<Seq<char>>) -> bool;

    /// `later` is a state that `self` may grow into.
    spec fn grows(&self, later: &Self) -> bool;

    proof fn lemma_grows_refl(&self)
        ensures
            self.grows(self),
    ;

    proof fn lemma_grows_trans(&self, mid: &Self, later: &Self)
        requires
            self.grows(mid),
            mid.grows(later),
        ensures
            self.grows(later),
    ;

    proof fn lemma_ok_mono(&self, later: &Self, old: Option<Seq<char>>, new: Option<Seq<char>>)
        requires
            self.ok(old, new),
            self.grows(later),
        ensures
            later.ok(old, new),
    ;

    fn step(&mut self, r: Option<String>) -> (out: Option<String>)
        requires
            old(self).inv(),
        ensures
            final(self).inv(),
            old(self).grows(&*final(self)),
            final(self).ok(r.deep_view(), out.deep_view()),
    ;
}

/// A key element whose two images were rewritten.
pub open spec fn with_images(l: KeyPositionV, active: Option<Seq<char>>, inactive: Option<Seq<char>>) -> KeyPositionV {
    KeyPositionV { active_image: active, inactive_image: inactive, ..l }
}

/// A key element whose sound was rewritten.
pub open spec fn with_sound(l: KeyPositionV, sound: Option<Seq<char>>) -> KeyPositionV {
    KeyPositionV { sound_path: sound, ..l }
}

/// `new` is `old` with both images rewritten acceptably and nothing else changed.
pub open spec fn images_rewritten<E: HasLook, S: RefStep>(s: &S, old: E::V, new: E::V) -> bool {
    let lo = E::look_of(old);
    let ln = E::look_of(new);
    &&& new == E::with_look(old, with_images(lo, ln.active_image, ln.inactive_image))
    &&& s.ok(lo.active_image, ln.active_image)
    &&& s.ok(lo.inactive_image, ln.inactive_image)
}

/// `new` is `old` with its sound rewritten acceptably and nothing else changed.
pub open spec fn sound_rewritten<E: HasLook, S: RefStep>(s: &S, old: E::V, new: E::V) -> bool {
    let lo = E::look_of(old);
    let ln = E::look_of(new);
    &&& new == E::with_look(old, with_sound(lo, ln.sound_path))
    &&& s.ok(lo.sound_path, ln.sound_path)
}

/// Which references of a key element a collection rewrite touches.
pub enum LookField {
    Images,
    Sound,
}

pub open spec fn look_rewritten<E: HasLook, S: RefStep>(
    field: LookField,
    s: &S,
    old: E::V,
    new: E::V,
) -> bool {
    match field {
        LookField::Images => images_rewritten::<E, S>(s, old, new),
        LookField::Sound => sound_rewritten::<E, S>(s, old, new),
    }
}

/// Every element of every tab was rewritten acceptably; tabs and element counts stay.
pub open spec fn collection_rewritten<E: HasLook, S: RefStep>(
    field: LookField,
    s: &S,
    old: Map<Seq<char>, Seq<E::V>>,
    new: Map<Seq<char>, Seq<E::V>>,
) -> bool {
    &&& new.dom() == old.dom()
    &&& forall|k: Seq<char>|
        #[trigger] old.contains_key(k) ==> new[k].len() == old[k].len() && forall|i: int|
            0 <= i < old[k].len() ==> look_rewritten::<E, S>(field, s, old[k][i], #[trigger] new[k][i])
}

proof fn lemma_look_mono<E: HasLook, S: RefStep>(
    field: LookField,
    s: &S,
    later: &S,
    old: E::V,
    new: E::V,
)
    requires
        look_rewritten::<E, S>(field, s, old, new),
        s.grows(later),
    ensures
        look_rewritten::<E, S>(field, later, old, new),
{
    let lo = E::look_of(old);
    let ln = E::look_of(new);
    match field {
        LookField::Images => {
            s.lemma_ok_mono(later, lo.active_image, ln.active_image);
            s.lemma_ok_mono(later, lo.inactive_image, ln.inactive_image);
        },
        LookField::Sound => {
            s.lemma_ok_mono(later, lo.sound_path, ln.sound_path);
        },
    }
}

/// A collection rewrite that a state accepts, a state it grows into accepts too.
pub proof fn lemma_collection_mono<E: HasLook, S: RefStep>(
    field: LookField,
    s: &S,
    later: &S,
    old: Map<Seq<char>, Seq<E::V>>,
    new: Map<Seq<char>, Seq<E::V>>,
)
    requires
        collection_rewritten::<E, S>(field, s, old, new),
        s.grows(later),
    ensures
        collection_rewritten::<E, S>(field, later, old, new),
{
    assert forall|k: Seq<char>| #[trigger] old.contains_key(k) implies new[k].len() == old[k].len()
        && forall|i: int|
        0 <= i < old[k].len() ==> look_rewritten::<E, S>(field, later, old[k][i], #[trigger] new[k][i]) by {
        assert forall|i: int| 0 <= i < old[k].len() implies look_rewritten::<E, S>(
            field,
            later,
            old[k][i],
            #[trigger] new[k][i],
        ) by {
            lemma_look_mono::<E, S>(field, s, later, old[k][i], new[k][i]);
        }
    }
}

/// Rewrites the chosen references of one element.
fn rewrite_look<E: HasLook, S: RefStep>(field: &LookField, e: &mut E, s: &mut S)
    requires
        old(s).inv(),
    ensures
        final(s).inv(),
        old(s).grows(&*final(s)),
        look_rewritten::<E, S>(*field, &*final(s), old(e).deep_view(), final(e).deep_view()),
{
    let ghost s0 = *s;
    let ghost e0 = e.deep_view();
    let mut l = e.look().dup();
    match field {
        LookField::Images => {
            let a = l.active_image.dup();
            let na = s.step(a);
            let ghost s1 = *s;
            let b = l.inactive_image.dup();
            let nb = s.step(b);
            l.active_image = na;
            l.inactive_image = nb;
            proof {
                s1.lemma_ok_mono(&*s, E::look_of(e0).active_image, na.deep_view());
                s0.lemma_grows_trans(&s1, &*s);
            }
        },
        LookField::Sound => {
            let a = l.sound_path.dup();
            let na = s.step(a);
            l.sound_path = na;
        },
    }
    e.set_look(l);
    proof {
        E::lemma_with_look(e0, l.deep_view());
        E::lemma_with_look(e0, E::look_of(e0));
    }
}

/// Rewrites the chosen references of every element of every tab.
pub fn rewrite_collection<E: HasLook, S: RefStep>(field: LookField, m: &mut StrMap<Vec<E>>, s: &mut S)
    requires
        old(s).inv(),
    ensures
        final(s).inv(),
        old(s).grows(&*final(s)),
        collection_rewritten::<E, S>(field, &*final(s), old(m)@, final(m)@),
        final(m).wf(),
{
    m.check_wf();
    let ghost m0 = *m;
    let ghost s0 = *s;
    proof {
        s0.lemma_grows_refl();
    }
    let n = m.len();
    let mut i: usize = 0;
    while i < n
        invariant
            n == m.spec_len(),
            n == m0.spec_len(),
            i <= n,
            m.wf(),
            m0.wf(),
            s.inv(),
            s0.grows(&*s),
            forall|j: int| 0 <= j < n ==> m.spec_key(j) == m0.spec_key(j),
            forall|j: int| i <= j < n ==> m.spec_value(j) == m0.spec_value(j),
            forall|j: int|
                0 <= j < i ==> m.spec_value(j).len() == m0.spec_value(j).len() && forall|t: int|
                    0 <= t < m0.spec_value(j).len() ==> look_rewritten::<E, S>(
                        field,
                        &*s,
                        m0.spec_value(j)[t],
                        #[trigger] m.spec_value(j)[t],
                    ),
        decreases n - i,
    {
        let ghost s_before = *s;
        proof {
            s_before.lemma_grows_refl();
        }
        let mut v = m.replace_at(i, Vec::new());
        let ghost v0 = v.deep_view();
        let vn = v.len();
        let mut t: usize = 0;
        while t < vn
            invariant
                vn == v.len(),
                vn == v0.len(),
                t <= vn,
                s.inv(),
                s_before.grows(&*s),
                forall|u: int| t <= u < vn ==> v.deep_view()[u] == v0[u],
                forall|u: int|
                    0 <= u < t ==> look_rewritten::<E, S>(field, &*s, v0[u], #[trigger] v.deep_view()[u]),
            decreases vn - t,
        {
            let ghost s_mid = *s;
            let mut e = v[t].dup();
            rewrite_look(&field, &mut e, s);
            let ghost before_v = v.deep_view();
            v.set(t, e);
            proof {
                assert(v.deep_view() =~= before_v.update(t as int, e.deep_view()));
                assert forall|u: int| 0 <= u < t implies look_rewritten::<E, S>(
                    field,
                    &*s,
                    v0[u],
                    #[trigger] v.deep_view()[u],
                ) by {
                    lemma_look_mono::<E, S>(field, &s_mid, &*s, v0[u], before_v[u]);
                }
                s_before.lemma_grows_trans(&s_mid, &*s);
            }
            t += 1;
        }
        let _ = m.replace_at(i, v);
        proof {
            assert forall|j: int| 0 <= j < i implies m.spec_value(j).len() == m0.spec_value(j).len()
                && forall|t2: int|
                0 <= t2 < m0.spec_value(j).len() ==> look_rewritten::<E, S>(
                    field,
                    &*s,
                    m0.spec_value(j)[t2],
                    #[trigger] m.spec_value(j)[t2],
                ) by {
                assert forall|t2: int| 0 <= t2 < m0.spec_value(j).len() implies look_rewritten::<
                    E,
                    S,
                >(field, &*s, m0.spec_value(j)[t2], #[trigger] m.spec_value(j)[t2]) by {
                    lemma_look_mono::<E, S>(field, &s_before, &*s, m0.spec_value(j)[t2], m.spec_value(j)[t2]);
                }
            }
            s0.lemma_grows_trans(&s_before, &*s);
        }
        i += 1;
    }
    proof {
        assert forall|k: Seq<char>| #[trigger] m.view_map().contains_key(k) <==> m0.view_map().contains_key(k) by {
            if m0@.contains_key(k) {
                let j = m0.lemma_key(k);
                m.lemma_index(j);
            }
            if m@.contains_key(k) {
                let j = m.lemma_key(k);
                m0.lemma_index(j);
            }
        }
        assert(m@.dom() =~= m0@.dom());
        assert forall|k: Seq<char>| #[trigger] m0@.contains_key(k) implies m@[k].len() == m0@[k].len()
            && forall|t2: int|
            0 <= t2 < m0@[k].len() ==> look_rewritten::<E, S>(field, &*s, m0@[k][t2], #[trigger] m@[k][t2]) by {
            let j = m0.lemma_key(k);
            m.lemma_index(j);
        }
    }
}

/// A pose whose override image was rewritten acceptably; its measured size stays only
/// while the reference stays.
pub open spec fn pose_rewritten<S: RefStep>(s: &S, old: SpritePoseV, new: SpritePoseV) -> bool {
    &&& new.pose_id == old.pose_id
    &&& s.ok(old.image_override, new.image_override)
    &&& new.image_override_metrics == (if new.image_override == old.image_override {
        old.image_override_metrics
    } else {
        None
    })
}

/// A sprite whose base image and pose images were rewritten acceptably; measured sizes
/// stay only while their references stay.
pub open spec fn sprite_rewritten<S: RefStep>(
    s: &S,
    old: ReactiveSpritePositionV,
    new: ReactiveSpritePositionV,
) -> bool {
    &&& new.id == old.id
    &&& s.ok(old.base_image, new.base_image)
    &&& new.reference_natural_size == (if new.base_image == old.base_image {
        old.reference_natural_size
    } else {
        None
    })
    &&& new.poses.len() == old.poses.len()
    &&& forall|i: int| 0 <= i < old.poses.len() ==> pose_rewritten(s, old.poses[i], #[trigger] new.poses[i])
}

/// Every sprite of every tab was rewritten acceptably; tabs and sprite counts stay.
pub open spec fn sprites_rewritten<S: RefStep>(
    s: &S,
    old: Map<Seq<char>, Seq<ReactiveSpritePositionV>>,
    new: Map<Seq<char>, Seq<ReactiveSpritePositionV>>,
) -> bool {
    &&& new.dom() == old.dom()
    &&& forall|k: Seq<char>|
        #[trigger] old.contains_key(k) ==> new[k].len() == old[k].len() && forall|i: int|
            0 <= i < old[k].len() ==> sprite_rewritten(s, old[k][i], #[trigger] new[k][i])
}

proof fn lemma_sprite_mono<S: RefStep>(
    s: &S,
    later: &S,
    old: ReactiveSpritePositionV,
    new: ReactiveSpritePositionV,
)
    requires
        sprite_rewritten(s, old, new),
        s.grows(later),
    ensures
        sprite_rewritten(later, old, new),
{
    s.lemma_ok_mono(later, old.base_image, new.base_image);
    assert forall|i: int| 0 <= i < old.poses.len() implies pose_rewritten(
        later,
        old.poses[i],
        #[trigger] new.poses[i],
    ) by {
        s.lemma_ok_mono(later, old.poses[i].image_override, new.poses[i].image_override);
    }
}

/// Whether two optional references are the same text.
fn same_ref(a: &Option<String>, b: &Option<String>) -> (r: bool)
    ensures
        r == (a.deep_view() == b.deep_view()),
{
    match (a, b) {
        (Some(x), Some(y)) => crate::text::str_eq(x.as_str(), y.as_str()),
        (None, None) => true,
        _ => false,
    }
}

/// Rewrites the image of one pose; a changed reference drops the size measured on the old one.
fn rewrite_pose<S: RefStep>(pose: &mut SpritePose, s: &mut S)
    requires
        old(s).inv(),
    ensures
        final(s).inv(),
        old(s).grows(&*final(s)),
        pose_rewritten(&*final(s), old(pose).deep_view(), final(pose).deep_view()),
{
    let before = pose.image_override.dup();
    let out = s.step(pose.image_override.dup());
    if !same_ref(&before, &out) {
        pose.image_override_metrics = None;
    }
    pose.image_override = out;
}

/// Rewrites the base image and pose images of one sprite.
fn rewrite_sprite<S: RefStep>(sprite: &mut ReactiveSpritePosition, s: &mut S)
    requires
        old(s).inv(),
    ensures
        final(s).inv(),
        old(s).grows(&*final(s)),
        sprite_rewritten(&*final(s), old(sprite).deep_view(), final(sprite).deep_view()),
{
    let ghost s0 = *s;
    let ghost sp0 = sprite.deep_view();
    let before = sprite.base_image.dup();
    let out = s.step(sprite.base_image.dup());
    if !same_ref(&before, &out) {
        sprite.reference_natural_size = None;
    }
    sprite.base_image = out;
    let ghost s1 = *s;
    proof {
        s1.lemma_grows_refl();
    }
    let n = sprite.poses.len();
    let mut i: usize = 0;
    while i < n
        invariant
            n == sprite.poses.len(),
            n == sp0.poses.len(),
            i <= n,
            s.inv(),
            s0.grows(&s1),
            s1.grows(&*s),
            s1.ok(sp0.base_image, sprite.base_image.deep_view()),
            sprite.id.deep_view() == sp0.id,
            sprite.reference_natural_size.deep_view() == (if sprite.base_image.deep_view()
                == sp0.base_image {
                sp0.reference_natural_size
            } else {
                None
            }),
            forall|u: int| i <= u < n ==> sprite.poses.deep_view()[u] == sp0.poses[u],
            forall|u: int|
                0 <= u < i ==> pose_rewritten(&*s, sp0.poses[u], #[trigger] sprite.poses.deep_view()[u]),
        decreases n - i,
    {
        let ghost s_mid = *s;
        let mut pose = sprite.poses[i].dup();
        rewrite_pose(&mut pose, s);
        let ghost before_p = sprite.poses.deep_view();
        sprite.poses.set(i, pose);
        proof {
            assert(sprite.poses.deep_view() =~= before_p.update(i as int, pose.deep_view()));
            assert forall|u: int| 0 <= u < i implies pose_rewritten(
                &*s,
                sp0.poses[u],
                #[trigger] sprite.poses.deep_view()[u],
            ) by {
                s_mid.lemma_ok_mono(&*s, sp0.poses[u].image_override, before_p[u].image_override);
            }
            s1.lemma_grows_trans(&s_mid, &*s);
        }
        i += 1;
    }
    proof {
        s1.lemma_ok_mono(&*s, sp0.base_image, sprite.base_image.deep_view());
        s0.lemma_grows_trans(&s1, &*s);
    }
}

/// Rewrites the base and pose images of every sprite of every tab.
pub fn rewrite_sprites<S: RefStep>(m: &mut StrMap<Vec<ReactiveSpritePosition>>, s: &mut S)
    requires
        old(s).inv(),
    ensures
        final(s).inv(),
        old(s).grows(&*final(s)),
        sprites_rewritten(&*final(s), old(m)@, final(m)@),
        final(m).wf(),
{
    m.check_wf();
    let ghost m0 = *m;
    let ghost s0 = *s;
    proof {
        s0.lemma_grows_refl();
    }
    let n = m.len();
    let mut i: usize = 0;
    while i < n
        invariant
            n == m.spec_len(),
            n == m0.spec_len(),
            i <= n,
            m.wf(),
            m0.wf(),
            s.inv(),
            s0.grows(&*s),
            forall|j: int| 0 <= j < n ==> m.spec_key(j) == m0.spec_key(j),
            forall|j: int| i <= j < n ==> m.spec_value(j) == m0.spec_value(j),
            forall|j: int|
                0 <= j < i ==> m.spec_value(j).len() == m0.spec_value(j).len() && forall|t: int|
                    0 <= t < m0.spec_value(j).len() ==> sprite_rewritten(
                        &*s,
                        m0.spec_value(j)[t],
                        #[trigger] m.spec_value(j)[t],
                    ),
        decreases n - i,
    {
        let ghost s_before = *s;
        proof {
            s_before.lemma_grows_refl();
        }
        let mut v = m.replace_at(i, Vec::new());
        let ghost v0 = v.deep_view();
        let vn = v.len();
        let mut t: usize = 0;
        while t < vn
            invariant
                vn == v.len(),
                vn == v0.len(),
                t <= vn,
                s.inv(),
                s_before.grows(&*s),
                forall|u: int| t <= u < vn ==> v.deep_view()[u] == v0[u],
                forall|u: int| 0 <= u < t ==> sprite_rewritten(&*s, v0[u], #[trigger] v.deep_view()[u]),
            decreases vn - t,
        {
            let ghost s_mid = *s;
            let mut e = v[t].dup();
            rewrite_sprite(&mut e, s);
            let ghost before_v = v.deep_view();
            v.set(t, e);
            proof {
                assert(v.deep_view() =~= before_v.update(t as int, e.deep_view()));
                assert forall|u: int| 0 <= u < t implies sprite_rewritten(
                    &*s,
                    v0[u],
                    #[trigger] v.deep_view()[u],
                ) by {
                    lemma_sprite_mono(&s_mid, &*s, v0[u], before_v[u]);
                }
                s_before.lemma_grows_trans(&s_mid, &*s);
            }
            t += 1;
        }
        let _ = m.replace_at(i, v);
        proof {
            assert forall|j: int| 0 <= j < i implies m.spec_value(j).len() == m0.spec_value(j).len()
                && forall|t2: int|
                0 <= t2 < m0.spec_value(j).len() ==> sprite_rewritten(
                    &*s,
                    m0.spec_value(j)[t2],
                    #[trigger] m.spec_value(j)[t2],
                ) by {
                assert forall|t2: int| 0 <= t2 < m0.spec_value(j).len() implies sprite_rewritten(
                    &*s,
                    m0.spec_value(j)[t2],
                    #[trigger] m.spec_value(j)[t2],
                ) by {
                    lemma_sprite_mono(&s_before, &*s, m0.spec_value(j)[t2], m.spec_value(j)[t2]);
                }
            }
            s0.lemma_grows_trans(&s_before, &*s);
        }
        i += 1;
    }
    proof {
        assert forall|k: Seq<char>| #[trigger] m.view_map().contains_key(k) <==> m0.view_map().contains_key(k) by {
            if m0@.contains_key(k) {
                let j = m0.lemma_key(k);
                m.lemma_index(j);
            }
            if m@.contains_key(k) {
                let j = m.lemma_key(k);
                m0.lemma_index(j);
            }
        }
        assert(m@.dom() =~= m0@.dom());
        assert forall|k: Seq<char>| #[trigger] m0@.contains_key(k) implies m@[k].len() == m0@[k].len()
            && forall|t2: int|
            0 <= t2 < m0@[k].len() ==> sprite_rewritten(&*s, m0@[k][t2], #[trigger] m@[k][t2]) by {
            let j = m0.lemma_key(k);
            m.lemma_index(j);
        }
    }
}

} // verus!
