use vstd::prelude::*;

verus! {

/// The closed set of component kinds an entity can carry. Components are
/// looked up by kind tag rather than by runtime type identity, so a typo or
/// an unknown kind is a compile error.
#[derive(Clone, Copy, PartialEq, Eq, Structural, Debug)]
pub enum ComponentKind {
    /// A renderable mesh with its transform.
    Model,
    /// A world transform on its own.
    Transform,
    /// A camera.
    Camera,
}

/// A reference to an entity in a world, by its unique id.
#[derive(Clone, Copy, PartialEq, Eq, Structural, Debug)]
pub struct Handle {
    pub uuid: u64,
}

/// One entity: a unique id and its components, each tagged with its kind.
/// The payload type `C` is whatever the application stores per component.
pub struct Entity<C> {
    pub uuid: u64,
    pub components: Vec<(ComponentKind, C)>,
}

/// The payloads in `s` tagged `kind`, in order.
pub open spec fn spec_components_of<C>(s: Seq<(ComponentKind, C)>, kind: ComponentKind) -> Seq<C>
    decreases s.len(),
{
    if s.len() == 0 {
        Seq::empty()
    } else if s[0].0 == kind {
        seq![s[0].1] + spec_components_of(s.drop_first(), kind)
    } else {
        spec_components_of(s.drop_first(), kind)
    }
}

/// Filtering splits over concatenation at any point.
pub proof fn lemma_components_of_split<C>(s: Seq<(ComponentKind, C)>, kind: ComponentKind, i: int)
    requires
        0 <= i <= s.len(),
    ensures
        spec_components_of(s, kind) == spec_components_of(s.take(i), kind) + spec_components_of(
            s.skip(i),
            kind,
        ),
    decreases i,
{
    if i == 0 {
        assert(s.take(0) =~= Seq::<(ComponentKind, C)>::empty());
        assert(s.skip(0) =~= s);
        assert(spec_components_of(s.take(0), kind) + spec_components_of(s.skip(0), kind)
            =~= spec_components_of(s, kind));
    } else {
        lemma_components_of_split(s.drop_first(), kind, i - 1);
        assert(s.take(i).drop_first() =~= s.drop_first().take(i - 1));
        assert(s.skip(i) =~= s.drop_first().skip(i - 1));
        assert(s.take(i)[0] == s[0]);
        if s[0].0 == kind {
            assert(seq![s[0].1] + (spec_components_of(s.drop_first().take(i - 1), kind)
                + spec_components_of(s.drop_first().skip(i - 1), kind)) =~= (seq![s[0].1]
                + spec_components_of(s.drop_first().take(i - 1), kind)) + spec_components_of(
                s.drop_first().skip(i - 1),
                kind,
            ));
        }
    }
}

/// There are at most as many payloads of one kind as components.
pub proof fn lemma_components_of_len<C>(s: Seq<(ComponentKind, C)>, kind: ComponentKind)
    ensures
        spec_components_of(s, kind).len() <= s.len(),
    decreases s.len(),
{
    if s.len() > 0 {
        lemma_components_of_len(s.drop_first(), kind);
    }
}

/// The position in `s` of the `index`-th component tagged `kind`.
pub open spec fn spec_match_pos<C>(
    s: Seq<(ComponentKind, C)>,
    kind: ComponentKind,
    index: int,
) -> int
    decreases s.len(),
{
    if s.len() == 0 {
        0
    } else if s[0].0 == kind && index == 0 {
        0
    } else if s[0].0 == kind {
        1 + spec_match_pos(s.drop_first(), kind, index - 1)
    } else {
        1 + spec_match_pos(s.drop_first(), kind, index)
    }
}

/// A position holding the `index`-th match is what `spec_match_pos` names.
proof fn lemma_match_pos_at<C>(
    s: Seq<(ComponentKind, C)>,
    kind: ComponentKind,
    i: int,
    index: int,
)
    requires
        0 <= i < s.len(),
        s[i].0 == kind,
        index == spec_components_of(s.take(i), kind).len(),
    ensures
        spec_match_pos(s, kind, index) == i,
    decreases i,
{
    if i == 0 {
        assert(s.take(0) =~= Seq::<(ComponentKind, C)>::empty());
    } else {
        assert(s.take(i)[0] == s[0]);
        assert(s.take(i).drop_first() =~= s.drop_first().take(i - 1));
        assert(s.drop_first()[i - 1] == s[i]);
        if s[0].0 == kind {
            lemma_match_pos_at(s.drop_first(), kind, i - 1, index - 1);
        } else {
            lemma_match_pos_at(s.drop_first(), kind, i - 1, index);
        }
    }
}

/// Overwriting a slot whose old and new tags are both foreign to `k2`
/// leaves `k2`'s payload list alone.
proof fn lemma_update_other_kind<C>(
    s: Seq<(ComponentKind, C)>,
    pos: int,
    x: (ComponentKind, C),
    k2: ComponentKind,
)
    requires
        0 <= pos < s.len(),
        s[pos].0 != k2,
        x.0 != k2,
    ensures
        spec_components_of(s.update(pos, x), k2) == spec_components_of(s, k2),
    decreases s.len(),
{
    let u = s.update(pos, x);
    assert(u.len() == s.len());
    if pos == 0 {
        assert(u.drop_first() =~= s.drop_first());
        assert(u[0] == x);
    } else {
        assert(u[0] == s[0]);
        assert(u.drop_first() =~= s.drop_first().update(pos - 1, x));
        lemma_update_other_kind(s.drop_first(), pos - 1, x, k2);
    }
}

/// Writing payload `v` over the `index`-th component tagged `kind` updates
/// exactly that slot of the kind's payload list and no other kind's.
pub proof fn lemma_components_update<C>(
    s: Seq<(ComponentKind, C)>,
    kind: ComponentKind,
    index: int,
    v: C,
)
    requires
        0 <= index < spec_components_of(s, kind).len(),
    ensures
        ({
            let pos = spec_match_pos(s, kind, index);
            &&& 0 <= pos < s.len()
            &&& s[pos].0 == kind
            &&& spec_components_of(s.update(pos, (kind, v)), kind) == spec_components_of(
                s,
                kind,
            ).update(index, v)
            &&& forall|k2: ComponentKind|
                k2 != kind ==> spec_components_of(s.update(pos, (kind, v)), k2)
                    == spec_components_of(s, k2)
        }),
    decreases s.len(),
{
    let pos = spec_match_pos(s, kind, index);
    if s[0].0 == kind && index == 0 {
        let u = s.update(0, (kind, v));
        assert(u.drop_first() =~= s.drop_first());
        assert(u[0] == (kind, v));
        assert(spec_components_of(u, kind) =~= spec_components_of(s, kind).update(0, v));
    } else {
        let index2 = if s[0].0 == kind {
            index - 1
        } else {
            index
        };
        lemma_components_update(s.drop_first(), kind, index2, v);
        let pos2 = spec_match_pos(s.drop_first(), kind, index2);
        assert(pos == 1 + pos2);
        let u = s.update(pos, (kind, v));
        assert(u.drop_first() =~= s.drop_first().update(pos2, (kind, v)));
        assert(u[0] == s[0]);
        if s[0].0 == kind {
            assert(seq![s[0].1] + spec_components_of(s.drop_first(), kind).update(index2, v)
                =~= (seq![s[0].1] + spec_components_of(s.drop_first(), kind)).update(index, v));
        }
        assert(spec_components_of(u, kind) == spec_components_of(s, kind).update(index, v));
    }
    assert forall|k2: ComponentKind| k2 != kind implies spec_components_of(
        s.update(pos, (kind, v)),
        k2,
    ) == spec_components_of(s, k2) by {
        lemma_update_other_kind(s, pos, (kind, v), k2);
    }
}

impl<C> Entity<C> {
    /// A fresh entity with no components.
    pub fn new(uuid: u64) -> (r: Self)
        ensures
            r.uuid == uuid,
            r.components@ == Seq::<(ComponentKind, C)>::empty(),
    {
        Entity { uuid, components: Vec::new() }
    }

    /// Attach one component of the given kind.
    pub fn add_component(&mut self, kind: ComponentKind, component: C)
        ensures
            final(self).uuid == old(self).uuid,
            final(self).components@ == old(self).components@.push((kind, component)),
    {
        self.components.push((kind, component));
    }

    /// The payloads of every component of the given kind, in the order they
    /// were attached.
    pub fn get_components(&self, kind: ComponentKind) -> (r: Vec<&C>)
        ensures
            r@.len() == spec_components_of(self.components@, kind).len(),
            forall|j: int|
                0 <= j < r@.len() ==> *(#[trigger] r@[j]) == spec_components_of(
                    self.components@,
                    kind,
                )[j],
    {
        let ghost whole = self.components@;
        let ghost target = spec_components_of(whole, kind);
        let n = self.components.len();
        let mut r: Vec<&C> = Vec::new();
        let ghost mut acc: Seq<C> = Seq::empty();
        let mut i: usize = 0;
        proof {
            assert(whole.skip(0) =~= whole);
            assert(Seq::<C>::empty() + spec_components_of(whole, kind) =~= spec_components_of(
                whole,
                kind,
            ));
        }
        while i < n
            invariant
                n == whole.len(),
                whole == self.components@,
                target == spec_components_of(whole, kind),
                i <= n,
                r@.len() == acc.len(),
                forall|j: int| 0 <= j < r@.len() ==> *(#[trigger] r@[j]) == acc[j],
                target == acc + spec_components_of(whole.skip(i as int), kind),
            decreases n - i,
        {
            let ghost tail = whole.skip(i as int);
            proof {
                assert(tail[0] == whole[i as int]);
                assert(tail.drop_first() =~= whole.skip(i + 1));
            }
            let entry = &self.components[i];
            if kind_eq(entry.0, kind) {
                r.push(&entry.1);
                proof {
                    let ghost acc2 = acc.push(entry.1);
                    assert(acc + (seq![tail[0].1] + spec_components_of(whole.skip(i + 1), kind))
                        =~= acc2 + spec_components_of(whole.skip(i + 1), kind));
                    acc = acc2;
                }
            }
            i += 1;
        }
        proof {
            assert(whole.skip(n as int) =~= Seq::<(ComponentKind, C)>::empty());
            assert(target =~= acc + Seq::<C>::empty());
            assert(target =~= acc);
        }
        r
    }

    /// Mutable access to the `index`-th component of the given kind. The
    /// update law `lemma_components_update` says what the write means for
    /// the kind's payload list.
    pub fn get_components_mut(&mut self, kind: ComponentKind, index: usize) -> (r: &mut C)
        requires
            index < spec_components_of(old(self).components@, kind).len(),
        ensures
            *r == spec_components_of(old(self).components@, kind)[index as int],
            final(self).uuid == old(self).uuid,
            final(self).components@ == old(self).components@.update(
                spec_match_pos(old(self).components@, kind, index as int),
                (kind, *final(r)),
            ),
    {
        let ghost whole = self.components@;
        let ghost target = spec_components_of(whole, kind);
        let n = self.components.len();
        let mut i: usize = 0;
        let mut seen: usize = 0;
        proof {
            assert(whole.skip(0) =~= whole);
            assert(whole.take(0) =~= Seq::<(ComponentKind, C)>::empty());
        }
        loop
            invariant
                n == whole.len(),
                whole == self.components@,
                whole == old(self).components@,
                self.uuid == old(self).uuid,
                target == spec_components_of(whole, kind),
                index < target.len(),
                i <= n,
                seen <= index,
                seen == spec_components_of(whole.take(i as int), kind).len(),
                target.len() == seen + spec_components_of(whole.skip(i as int), kind).len(),
            decreases n - i,
        {
            proof {
                if i == n {
                    assert(whole.skip(n as int) =~= Seq::<(ComponentKind, C)>::empty());
                }
                assert(i < n);
                let tail = whole.skip(i as int);
                assert(tail[0] == whole[i as int]);
                assert(tail.drop_first() =~= whole.skip(i + 1));
                assert(whole.take(i + 1).drop_last() =~= whole.take(i as int));
            }
            let found = kind_eq(self.components[i].0, kind) && seen == index;
            if found {
                proof {
                    lemma_components_of_split(whole, kind, i as int);
                    lemma_match_pos_at(whole, kind, i as int, index as int);
                    let tail = whole.skip(i as int);
                    assert(spec_components_of(tail, kind)[0] == whole[i as int].1);
                    assert(target[index as int] == whole[i as int].1);
                }
                let entry = &mut self.components[i];
                let r = &mut entry.1;
                return r;
            }
            proof {
                let tail = whole.skip(i as int);
                lemma_components_of_split(whole, kind, i as int);
                lemma_components_of_split(whole, kind, i + 1);
                assert(whole.take(i + 1) =~= whole.take(i as int).push(whole[i as int]));
            }
            if kind_eq(self.components[i].0, kind) {
                proof {
                    let pre = whole.take(i as int);
                    let post = whole.take(i + 1);
                    assert(post.drop_last() =~= pre);
                    assert(spec_components_of(post, kind) == spec_components_of(pre, kind).push(
                        whole[i as int].1,
                    )) by {
                        lemma_components_push(pre, kind, whole[i as int]);
                    }
                    assert(seen < index || seen == index);
                    if seen == index {
                        assert(false);
                    }
                }
                seen += 1;
            } else {
                proof {
                    let pre = whole.take(i as int);
                    let post = whole.take(i + 1);
                    assert(spec_components_of(post, kind) == spec_components_of(pre, kind)) by {
                        lemma_components_push(pre, kind, whole[i as int]);
                    }
                }
            }
            i += 1;
        }
    }
}

/// Appending one component changes a kind's payload list only if the kinds
/// agree.
proof fn lemma_components_push<C>(
    s: Seq<(ComponentKind, C)>,
    kind: ComponentKind,
    x: (ComponentKind, C),
)
    ensures
        x.0 == kind ==> spec_components_of(s.push(x), kind) == spec_components_of(s, kind).push(
            x.1,
        ),
        x.0 != kind ==> spec_components_of(s.push(x), kind) == spec_components_of(s, kind),
    decreases s.len(),
{
    if s.len() == 0 {
        assert(s.push(x).drop_first() =~= Seq::<(ComponentKind, C)>::empty());
        assert(s.push(x)[0] == x);
        assert(spec_components_of(Seq::<(ComponentKind, C)>::empty(), kind) == Seq::<C>::empty());
        if x.0 == kind {
            assert(spec_components_of(s.push(x), kind) =~= spec_components_of(s, kind).push(x.1));
        } else {
            assert(spec_components_of(s.push(x), kind) =~= spec_components_of(s, kind));
        }
    } else {
        assert(s.push(x).drop_first() =~= s.drop_first().push(x));
        assert(s.push(x)[0] == s[0]);
        lemma_components_push(s.drop_first(), kind, x);
        if x.0 == kind {
            if s[0].0 == kind {
                assert(seq![s[0].1] + spec_components_of(s.drop_first(), kind).push(x.1)
                    =~= (seq![s[0].1] + spec_components_of(s.drop_first(), kind)).push(x.1));
            }
            assert(spec_components_of(s.push(x), kind) =~= spec_components_of(s, kind).push(x.1));
        } else {
            assert(spec_components_of(s.push(x), kind) =~= spec_components_of(s, kind));
        }
    }
}

/// Whether two component kinds are the same.
fn kind_eq(a: ComponentKind, b: ComponentKind) -> (r: bool)
    ensures
        r == (a == b),
{
    a == b
}

} // verus!
