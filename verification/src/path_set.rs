//! Sets of paths, kept in the order of their components.

use vstd::prelude::*;

use crate::path;
use crate::text;

verus! {

/// How two values stand to each other.
#[derive(Debug, Clone, Copy, PartialEq, Eq, Structural)]
pub enum Order {
    Before,
    Same,
    After,
}

/// Whether `a` comes before `b` in the order of the characters.
pub open spec fn text_before(a: Seq<char>, b: Seq<char>) -> bool
    decreases a.len(),
{
    if b.len() == 0 {
        false
    } else if a.len() == 0 {
        true
    } else {
        a[0] < b[0] || (a[0] == b[0] && text_before(a.skip(1), b.skip(1)))
    }
}

/// The place of a component's kind: the root, the current directory, the parent, a name.
pub open spec fn kind_rank(component: Seq<char>) -> int {
    if component == seq!['/'] {
        0
    } else if component == seq!['.'] {
        1
    } else if component == seq!['.', '.'] {
        2
    } else {
        3
    }
}

/// Whether component `a` comes before component `b`.
pub open spec fn component_before(a: Seq<char>, b: Seq<char>) -> bool {
    kind_rank(a) < kind_rank(b) || (kind_rank(a) == 3 && kind_rank(b) == 3 && text_before(a, b))
}

/// Whether the components `a` come before the components `b`.
pub open spec fn components_before(a: Seq<Seq<char>>, b: Seq<Seq<char>>) -> bool
    decreases a.len(),
{
    if b.len() == 0 {
        false
    } else if a.len() == 0 {
        true
    } else {
        component_before(a[0], b[0]) || (a[0] == b[0] && components_before(a.skip(1), b.skip(1)))
    }
}

/// Whether path `a` comes before path `b`.
pub open spec fn path_before(a: Seq<char>, b: Seq<char>) -> bool {
    components_before(path::components_of(a), path::components_of(b))
}

/// Of two different texts exactly one comes first.
pub proof fn text_order_is_strict(a: Seq<char>, b: Seq<char>)
    ensures
        a == b ==> !text_before(a, b),
        a != b ==> (text_before(a, b) != text_before(b, a)),
    decreases a.len(),
{
    if a.len() > 0 && b.len() > 0 {
        text_order_is_strict(a.skip(1), b.skip(1));
        if a[0] == b[0] && a.skip(1) == b.skip(1) {
            assert(a =~= seq![a[0]] + a.skip(1));
            assert(b =~= seq![b[0]] + b.skip(1));
            assert(a == b);
        }
        if a == b {
            assert(a.skip(1) == b.skip(1));
        }
    } else if a.len() == 0 && b.len() == 0 {
        assert(a =~= b);
    }
}

/// The order of texts is transitive.
pub proof fn text_order_is_transitive(a: Seq<char>, b: Seq<char>, c: Seq<char>)
    requires
        text_before(a, b),
        text_before(b, c),
    ensures
        text_before(a, c),
    decreases a.len(),
{
    if a.len() > 0 && b.len() > 0 && c.len() > 0 {
        if a[0] == b[0] && b[0] == c[0] {
            text_order_is_transitive(a.skip(1), b.skip(1), c.skip(1));
        }
    }
}

proof fn component_order_is_strict(a: Seq<char>, b: Seq<char>)
    ensures
        a == b ==> !component_before(a, b),
        a != b ==> (component_before(a, b) != component_before(b, a)),
{
    text_order_is_strict(a, b);
}

proof fn component_order_is_transitive(a: Seq<char>, b: Seq<char>, c: Seq<char>)
    requires
        component_before(a, b),
        component_before(b, c),
    ensures
        component_before(a, c),
{
    if kind_rank(a) == 3 && kind_rank(b) == 3 && kind_rank(c) == 3 {
        text_order_is_transitive(a, b, c);
    }
}

/// Of two different component sequences exactly one comes first.
pub proof fn components_order_is_strict(a: Seq<Seq<char>>, b: Seq<Seq<char>>)
    ensures
        a == b ==> !components_before(a, b),
        a != b ==> (components_before(a, b) != components_before(b, a)),
    decreases a.len(),
{
    if a.len() > 0 && b.len() > 0 {
        component_order_is_strict(a[0], b[0]);
        components_order_is_strict(a.skip(1), b.skip(1));
        if a[0] == b[0] && a.skip(1) == b.skip(1) {
            assert(a =~= seq![a[0]] + a.skip(1));
            assert(b =~= seq![b[0]] + b.skip(1));
            assert(a == b);
        }
        if a == b {
            assert(a.skip(1) == b.skip(1));
        }
    } else if a.len() == 0 && b.len() == 0 {
        assert(a =~= b);
    }
}

/// The order of component sequences is transitive.
pub proof fn components_order_is_transitive(
    a: Seq<Seq<char>>,
    b: Seq<Seq<char>>,
    c: Seq<Seq<char>>,
)
    requires
        components_before(a, b),
        components_before(b, c),
    ensures
        components_before(a, c),
    decreases a.len(),
{
    if a.len() > 0 && b.len() > 0 && c.len() > 0 {
        component_order_is_strict(a[0], b[0]);
        component_order_is_strict(b[0], c[0]);
        if a[0] == b[0] && b[0] == c[0] {
            components_order_is_transitive(a.skip(1), b.skip(1), c.skip(1));
        } else if component_before(a[0], b[0]) && component_before(b[0], c[0]) {
            component_order_is_transitive(a[0], b[0], c[0]);
        }
    }
}

/// How two texts stand to each other.
pub fn order_of_texts(a: &str, b: &str) -> (order: Order)
    ensures
        order == Order::Before <==> text_before(a@, b@),
        order == Order::Same <==> a@ == b@,
        order == Order::After <==> text_before(b@, a@),
{
    let left = text::chars_of(a);
    let right = text::chars_of(b);
    let mut i: usize = 0;
    proof {
        assert(a@.skip(0) =~= a@);
        assert(b@.skip(0) =~= b@);
        text_order_is_strict(a@, b@);
    }
    while i < left.len() && i < right.len() && left[i] == right[i]
        invariant
            left@ == a@,
            right@ == b@,
            i <= left@.len(),
            i <= right@.len(),
            a@.take(i as int) == b@.take(i as int),
            text_before(a@, b@) == text_before(a@.skip(i as int), b@.skip(i as int)),
            text_before(b@, a@) == text_before(b@.skip(i as int), a@.skip(i as int)),
        decreases left.len() - i,
    {
        assert(a@.skip(i as int).skip(1) =~= a@.skip(i + 1));
        assert(b@.skip(i as int).skip(1) =~= b@.skip(i + 1));
        assert(a@.take(i + 1) =~= a@.take(i as int).push(a@[i as int]));
        assert(b@.take(i + 1) =~= b@.take(i as int).push(b@[i as int]));
        i += 1;
    }
    if i == left.len() && i == right.len() {
        assert(a@.take(i as int) =~= a@);
        assert(b@.take(i as int) =~= b@);
        Order::Same
    } else if i == right.len() {
        Order::After
    } else if i == left.len() || left[i] < right[i] {
        Order::Before
    } else {
        Order::After
    }
}

/// The place of a component's kind.
fn rank(component: &str) -> (at: u8)
    ensures
        at == kind_rank(component@),
{
    let chars = text::chars_of(component);
    proof {
        assert(seq!['/'][0] == '/' && seq!['.'][0] == '.');
        assert(seq!['.', '.'][0] == '.' && seq!['.', '.'][1] == '.');
    }
    if chars.len() == 1 && chars[0] == '/' {
        assert(component@ =~= seq!['/']);
        0
    } else if chars.len() == 1 && chars[0] == '.' {
        assert(component@ =~= seq!['.']);
        1
    } else if chars.len() == 2 && chars[0] == '.' && chars[1] == '.' {
        assert(component@ =~= seq!['.', '.']);
        2
    } else {
        3
    }
}

/// How two components stand to each other.
fn order_of_components(a: &str, b: &str) -> (order: Order)
    ensures
        order == Order::Before <==> component_before(a@, b@),
        order == Order::Same <==> a@ == b@,
        order == Order::After <==> component_before(b@, a@),
{
    proof {
        component_order_is_strict(a@, b@);
    }
    let left = rank(a);
    let right = rank(b);
    if left < right {
        Order::Before
    } else if right < left {
        Order::After
    } else if left == 3 {
        order_of_texts(a, b)
    } else {
        Order::Same
    }
}

/// How two paths stand to each other.
pub fn order_of_paths(a: &str, b: &str) -> (order: Order)
    ensures
        order == Order::Before <==> path_before(a@, b@),
        order == Order::Same <==> path::same_path(a@, b@),
        order == Order::After <==> path_before(b@, a@),
{
    let left = path::components(a);
    let right = path::components(b);
    let ghost x = path::components_of(a@);
    let ghost y = path::components_of(b@);
    let mut i: usize = 0;
    proof {
        assert(x.skip(0) =~= x);
        assert(y.skip(0) =~= y);
        components_order_is_strict(x, y);
        assert(x.len() == left@.len() && y.len() == right@.len());
    }
    while i < left.len() && i < right.len()
        invariant
            text::views(left@) == x,
            text::views(right@) == y,
            x.len() == left@.len(),
            y.len() == right@.len(),
            i <= left@.len(),
            i <= right@.len(),
            x.take(i as int) == y.take(i as int),
            x == path::components_of(a@),
            y == path::components_of(b@),
            x == y ==> !components_before(x, y),
            x != y ==> (components_before(x, y) != components_before(y, x)),
            components_before(x, y) == components_before(x.skip(i as int), y.skip(i as int)),
            components_before(y, x) == components_before(y.skip(i as int), x.skip(i as int)),
        decreases left.len() - i,
    {
        assert(x[i as int] == left@[i as int]@);
        assert(y[i as int] == right@[i as int]@);
        proof {
            component_order_is_strict(x[i as int], y[i as int]);
        }
        let order = order_of_components(left[i].as_str(), right[i].as_str());
        match order {
            Order::Same => {},
            _ => {
                assert(x != y);
                return order;
            },
        }
        assert(x.skip(i as int).skip(1) =~= x.skip(i + 1));
        assert(y.skip(i as int).skip(1) =~= y.skip(i + 1));
        assert(x.take(i + 1) =~= x.take(i as int).push(x[i as int]));
        assert(y.take(i + 1) =~= y.take(i as int).push(y[i as int]));
        i += 1;
    }
    if i == left.len() && i == right.len() {
        assert(x.take(i as int) =~= x);
        assert(y.take(i as int) =~= y);
        Order::Same
    } else if i == right.len() {
        Order::After
    } else {
        Order::Before
    }
}

/// A set of paths. Two paths with the same components are one member.
#[derive(Debug, Clone)]
pub struct PathSet {
    items: Vec<String>,
}

/// Whether each path comes before every later one.
pub open spec fn ascending(paths: Seq<Seq<char>>) -> bool {
    forall|i: int, j: int|
        0 <= i < j < paths.len() ==> path_before(#[trigger] paths[i], #[trigger] paths[j])
}

/// Whether some path of `paths` has the components `key`.
pub open spec fn holds_path(paths: Seq<Seq<char>>, key: Seq<Seq<char>>) -> bool {
    exists|i: int| 0 <= i < paths.len() && path::components_of(#[trigger] paths[i]) == key
}

/// How many paths of `paths`, from the first on, come before `s`.
pub open spec fn place_in(paths: Seq<Seq<char>>, s: Seq<char>) -> int
    decreases paths.len(),
{
    if paths.len() == 0 || !path_before(paths[0], s) {
        0
    } else {
        1 + place_in(paths.skip(1), s)
    }
}

/// `paths` with `s` in its place, unless a path with the components of `s` is there.
pub open spec fn with_member(paths: Seq<Seq<char>>, s: Seq<char>) -> Seq<Seq<char>> {
    if holds_path(paths, path::components_of(s)) {
        paths
    } else {
        paths.insert(place_in(paths, s), s)
    }
}

/// The members of the set that the paths `added`, one after the other, make of `start`.
pub open spec fn with_members(start: Seq<Seq<char>>, added: Seq<Seq<char>>) -> Seq<Seq<char>>
    decreases added.len(),
{
    if added.len() == 0 {
        start
    } else {
        with_member(with_members(start, added.drop_last()), added.last())
    }
}

/// The members of the set that holds the paths `added`.
pub open spec fn set_of(added: Seq<Seq<char>>) -> Seq<Seq<char>> {
    with_members(Seq::empty(), added)
}

/// Only one place has the paths that come before `s` before it.
pub proof fn place_is_unique(paths: Seq<Seq<char>>, s: Seq<char>, at: int)
    requires
        0 <= at <= paths.len(),
        forall|i: int| 0 <= i < at ==> path_before(#[trigger] paths[i], s),
        at < paths.len() ==> !path_before(paths[at], s),
    ensures
        place_in(paths, s) == at,
    decreases at,
{
    if at > 0 {
        let rest = paths.skip(1);
        assert forall|i: int| 0 <= i < at - 1 implies path_before(#[trigger] rest[i], s) by {
            assert(rest[i] == paths[i + 1]);
        }
        place_is_unique(rest, s, at - 1);
        assert(path_before(paths[0], s));
    }
}

impl PathSet {
    /// The members in order, as they are written.
    pub closed spec fn texts(&self) -> Seq<Seq<char>> {
        text::views(self.items@)
    }

    /// Whether the members stand in order, each once.
    pub open spec fn wf(&self) -> bool {
        ascending(self.texts())
    }

    /// Whether the path `s` is a member.
    pub open spec fn has(&self, s: Seq<char>) -> bool {
        holds_path(self.texts(), path::components_of(s))
    }

    /// The set without members.
    pub fn new() -> (out: PathSet)
        ensures
            out.wf(),
            out.texts() == Seq::<Seq<char>>::empty(),
    {
        let out = PathSet { items: Vec::new() };
        assert(out.texts() =~= Seq::empty());
        out
    }

    /// How many members the set has.
    pub fn len(&self) -> (count: usize)
        ensures
            count == self.texts().len(),
    {
        self.items.len()
    }

    /// Whether the set has no member.
    pub fn is_empty(&self) -> (yes: bool)
        ensures
            yes == (self.texts().len() == 0),
    {
        self.items.len() == 0
    }

    /// The member at `index`.
    pub fn get(&self, index: usize) -> (out: &str)
        requires
            index < self.texts().len(),
        ensures
            out@ == self.texts()[index as int],
    {
        self.items[index].as_str()
    }

    /// The members in order.
    pub fn to_vec(&self) -> (out: Vec<String>)
        ensures
            text::views(out@) == self.texts(),
    {
        let mut out: Vec<String> = Vec::new();
        let mut i: usize = 0;
        while i < self.items.len()
            invariant
                i <= self.items@.len(),
                text::views(out@) == self.texts().take(i as int),
            decreases self.items.len() - i,
        {
            let ghost before = out@;
            out.push(self.items[i].clone());
            assert(text::views(out@) =~= text::views(before).push(self.texts()[i as int]));
            assert(self.texts().take(i + 1) =~= self.texts().take(i as int).push(
                self.texts()[i as int],
            ));
            i += 1;
        }
        assert(self.texts().take(i as int) =~= self.texts());
        out
    }

    /// Another set with the same members.
    pub fn copy(&self) -> (out: PathSet)
        ensures
            out.texts() == self.texts(),
    {
        PathSet { items: self.to_vec() }
    }

    /// The place of the first member that does not come before `path`.
    fn place(&self, path: &str) -> (at: usize)
        requires
            self.wf(),
        ensures
            at <= self.texts().len(),
            forall|i: int| 0 <= i < at ==> path_before(#[trigger] self.texts()[i], path@),
            forall|i: int| at <= i < self.texts().len() ==> !path_before(#[trigger] self.texts()[i], path@),
    {
        let mut at: usize = 0;
        while at < self.items.len()
            invariant
                self.wf(),
                at <= self.items@.len(),
                forall|i: int| 0 <= i < at ==> path_before(#[trigger] self.texts()[i], path@),
            decreases self.items.len() - at,
        {
            assert(self.texts()[at as int] == self.items@[at as int]@);
            match order_of_paths(self.items[at].as_str(), path) {
                Order::Before => {},
                _ => {
                    proof {
                        assert forall|i: int| at <= i < self.texts().len() implies !path_before(
                            #[trigger] self.texts()[i],
                            path@,
                        ) by {
                            if i > at && path_before(self.texts()[i], path@) {
                                components_order_is_transitive(
                                    path::components_of(self.texts()[at as int]),
                                    path::components_of(self.texts()[i]),
                                    path::components_of(path@),
                                );
                            }
                        }
                    }
                    return at;
                },
            }
            at += 1;
        }
        at
    }

    /// Whether `path` is a member.
    pub fn contains(&self, path: &str) -> (yes: bool)
        requires
            self.wf(),
        ensures
            yes == self.has(path@),
    {
        let at = self.place(path);
        let ghost key = path::components_of(path@);
        proof {
            assert forall|i: int| 0 <= i < self.texts().len() && i != at implies path::components_of(
                #[trigger] self.texts()[i],
            ) != key by {
                components_order_is_strict(path::components_of(self.texts()[i]), key);
                if i > at {
                    assert(path_before(self.texts()[at as int], self.texts()[i]));
                    components_order_is_strict(
                        path::components_of(self.texts()[at as int]),
                        key,
                    );
                }
            }
        }
        if at == self.items.len() {
            return false;
        }
        assert(self.texts()[at as int] == self.items@[at as int]@);
        path::equal(self.items[at].as_str(), path)
    }

    /// Adds each of the paths.
    pub fn extend(&mut self, paths: Vec<String>)
        requires
            old(self).wf(),
        ensures
            final(self).wf(),
            final(self).texts() == with_members(old(self).texts(), text::views(paths@)),
    {
        let ghost start = self.texts();
        let ghost all = text::views(paths@);
        let mut i: usize = 0;
        assert(all.take(0) =~= Seq::empty());
        while i < paths.len()
            invariant
                i <= paths@.len(),
                all == text::views(paths@),
                self.wf(),
                self.texts() == with_members(start, all.take(i as int)),
            decreases paths.len() - i,
        {
            assert(all.take(i + 1).drop_last() =~= all.take(i as int));
            assert(all.take(i + 1).last() == paths@[i as int]@);
            self.insert(paths[i].clone());
            i += 1;
        }
        assert(all.take(i as int) =~= all);
    }

    /// Adds `path`; a member with the same components stays as it is.
    pub fn insert(&mut self, path: String) -> (added: bool)
        requires
            old(self).wf(),
        ensures
            final(self).wf(),
            added == !old(self).has(path@),
            final(self).texts() == with_member(old(self).texts(), path@),
            forall|key: Seq<Seq<char>>| #[trigger]
                holds_path(final(self).texts(), key) <==> holds_path(old(self).texts(), key) || key
                    == path::components_of(path@),
    {
        let ghost before = self.texts();
        let ghost key = path::components_of(path@);
        if self.contains(path.as_str()) {
            return false;
        }
        let at = self.place(path.as_str());
        let ghost new_text = path@;
        self.items.insert(at, path);
        proof {
            let after = self.texts();
            assert(after =~= before.insert(at as int, new_text));
            place_is_unique(before, new_text, at as int);
            assert forall|i: int, j: int| 0 <= i < j < after.len() implies path_before(
                #[trigger] after[i],
                #[trigger] after[j],
            ) by {
                let left = if i < at {
                    i
                } else {
                    i - 1
                };
                let right = if j < at {
                    j
                } else {
                    j - 1
                };
                if i == at {
                    assert(after[j] == before[right]);
                    assert(path::components_of(before[right]) != key);
                    components_order_is_strict(path::components_of(before[right]), key);
                } else if j == at {
                    assert(after[i] == before[left]);
                } else {
                    assert(after[i] == before[left]);
                    assert(after[j] == before[right]);
                }
            }
            assert forall|k: Seq<Seq<char>>| #[trigger] holds_path(after, k) <==> holds_path(before, k)
                || k == key by {
                if holds_path(before, k) {
                    let i = choose|i: int|
                        0 <= i < before.len() && path::components_of(#[trigger] before[i]) == k;
                    let moved = if i < at {
                        i
                    } else {
                        i + 1
                    };
                    assert(after[moved] == before[i]);
                }
                if k == key {
                    assert(after[at as int] == new_text);
                }
                if holds_path(after, k) {
                    let i = choose|i: int|
                        0 <= i < after.len() && path::components_of(#[trigger] after[i]) == k;
                    if i < at {
                        assert(after[i] == before[i]);
                    } else if i > at {
                        assert(after[i] == before[i - 1]);
                    }
                }
            }
        }
        true
    }
}

/// Each member of a set that grew was a member before, or was added.
pub proof fn members_come_from_somewhere(start: Seq<Seq<char>>, added: Seq<Seq<char>>, i: int)
    requires
        0 <= i < with_members(start, added).len(),
    ensures
        start.contains(with_members(start, added)[i]) || added.contains(
            with_members(start, added)[i],
        ),
    decreases added.len(),
{
    let all = with_members(start, added);
    if added.len() == 0 {
        assert(start[i] == all[i]);
    } else {
        let before = with_members(start, added.drop_last());
        let last = added.last();
        assert(added[added.len() - 1] == last);
        if holds_path(before, path::components_of(last)) {
            members_come_from_somewhere(start, added.drop_last(), i);
            contained_in_longer(added, all[i]);
        } else {
            place_is_bounded(before, last);
            let at = place_in(before, last);
            assert(all == before.insert(at, last));
            if i == at {
                assert(added.contains(all[i]));
            } else {
                let k = if i < at {
                    i
                } else {
                    i - 1
                };
                assert(all[i] == before[k]);
                members_come_from_somewhere(start, added.drop_last(), k);
                contained_in_longer(added, all[i]);
            }
        }
    }
}

proof fn contained_in_longer(added: Seq<Seq<char>>, s: Seq<char>)
    requires
        added.len() > 0,
    ensures
        added.drop_last().contains(s) ==> added.contains(s),
{
    let before = added.drop_last();
    if before.contains(s) {
        let k = choose|k: int| 0 <= k < before.len() && before[k] == s;
        assert(added[k] == s);
    }
}

/// The place of a path is one of the list.
pub proof fn place_is_bounded(paths: Seq<Seq<char>>, s: Seq<char>)
    ensures
        0 <= place_in(paths, s) <= paths.len(),
    decreases paths.len(),
{
    if paths.len() > 0 && path_before(paths[0], s) {
        place_is_bounded(paths.skip(1), s);
    }
}

/// What is added to a set of paths is in it, by its components, and so is what was there.
pub proof fn added_paths_are_held(start: Seq<Seq<char>>, added: Seq<Seq<char>>, key: Seq<Seq<char>>)
    ensures
        holds_path(with_members(start, added), key) == (holds_path(start, key) || holds_path(
            added,
            key,
        )),
    decreases added.len(),
{
    let all = with_members(start, added);
    if added.len() == 0 {
        assert(!holds_path(added, key));
    } else {
        let shorter = added.drop_last();
        let before = with_members(start, shorter);
        let last = added.last();
        added_paths_are_held(start, shorter, key);
        assert(holds_path(added, key) == (holds_path(shorter, key) || path::components_of(last)
            == key)) by {
            if holds_path(shorter, key) {
                let k = choose|k: int|
                    0 <= k < shorter.len() && path::components_of(#[trigger] shorter[k]) == key;
                assert(path::components_of(added[k]) == key);
            }
            if path::components_of(last) == key {
                assert(path::components_of(added[added.len() - 1]) == key);
            }
            if holds_path(added, key) {
                let k = choose|k: int|
                    0 <= k < added.len() && path::components_of(#[trigger] added[k]) == key;
                if k < added.len() - 1 {
                    assert(path::components_of(shorter[k]) == key);
                }
            }
        }
        insertion_holds(before, last, key);
    }
}

proof fn insertion_holds(before: Seq<Seq<char>>, s: Seq<char>, key: Seq<Seq<char>>)
    ensures
        holds_path(with_member(before, s), key) == (holds_path(before, key) || path::components_of(s)
            == key),
{
    if !holds_path(before, path::components_of(s)) {
        place_is_bounded(before, s);
        let at = place_in(before, s);
        let after = before.insert(at, s);
        if holds_path(before, key) {
            let i = choose|i: int|
                0 <= i < before.len() && path::components_of(#[trigger] before[i]) == key;
            assert(after[if i < at {
                i
            } else {
                i + 1
            }] == before[i]);
        }
        if path::components_of(s) == key {
            assert(after[at] == s);
        }
        if holds_path(after, key) {
            let i = choose|i: int|
                0 <= i < after.len() && path::components_of(#[trigger] after[i]) == key;
            if i < at {
                assert(after[i] == before[i]);
            } else if i > at {
                assert(after[i] == before[i - 1]);
            }
        }
    }
}

/// The place of a path: what stands before it comes before the path, and nothing behind it does.
pub proof fn place_parts_the_set(paths: Seq<Seq<char>>, s: Seq<char>, i: int)
    requires
        ascending(paths),
        0 <= i < paths.len(),
    ensures
        path_before(paths[i], s) == (i < place_in(paths, s)),
    decreases paths.len(),
{
    if !path_before(paths[0], s) {
        if i > 0 && path_before(paths[i], s) {
            components_order_is_transitive(
                path::components_of(paths[0]),
                path::components_of(paths[i]),
                path::components_of(s),
            );
        }
    } else if i > 0 {
        let rest = paths.skip(1);
        assert forall|j: int, k: int| 0 <= j < k < rest.len() implies path_before(
            #[trigger] rest[j],
            #[trigger] rest[k],
        ) by {
            assert(rest[j] == paths[j + 1]);
            assert(rest[k] == paths[k + 1]);
        }
        place_parts_the_set(rest, s, i - 1);
        assert(rest[i - 1] == paths[i]);
    } else {
        place_is_bounded(paths.skip(1), s);
    }
}

proof fn member_keeps_order(paths: Seq<Seq<char>>, s: Seq<char>)
    requires
        ascending(paths),
    ensures
        ascending(with_member(paths, s)),
{
    let key = path::components_of(s);
    if !holds_path(paths, key) {
        place_is_bounded(paths, s);
        let at = place_in(paths, s);
        let after = paths.insert(at, s);
        assert forall|i: int, j: int| 0 <= i < j < after.len() implies path_before(
            #[trigger] after[i],
            #[trigger] after[j],
        ) by {
            let from = if i < at {
                i
            } else {
                i - 1
            };
            let to = if j < at {
                j
            } else {
                j - 1
            };
            if i != at {
                assert(after[i] == paths[from]);
            }
            if j != at {
                assert(after[j] == paths[to]);
            }
            if j == at {
                place_parts_the_set(paths, s, from);
            } else if i == at {
                place_parts_the_set(paths, s, to);
                components_order_is_strict(path::components_of(paths[to]), key);
            }
        }
    }
}

/// A set of paths stays in order, each path once, whatever is added to it.
pub proof fn sets_stay_ascending(start: Seq<Seq<char>>, added: Seq<Seq<char>>)
    requires
        ascending(start),
    ensures
        ascending(with_members(start, added)),
    decreases added.len(),
{
    if added.len() > 0 {
        sets_stay_ascending(start, added.drop_last());
        member_keeps_order(with_members(start, added.drop_last()), added.last());
    }
}

/// The paths of an ascending list are different paths.
pub proof fn ascending_paths_differ(paths: Seq<Seq<char>>, i: int, j: int)
    requires
        ascending(paths),
        0 <= i < j < paths.len(),
    ensures
        !path::same_path(paths[i], paths[j]),
{
    components_order_is_strict(path::components_of(paths[i]), path::components_of(paths[j]));
}

/// Texts are ordered by their first character that differs, and the beginning of a text comes before
/// it; names are ordered behind the root and the steps.
pub proof fn texts_are_ordered_by_character(a: Seq<char>, b: Seq<char>, k: int)
    requires
        0 <= k <= a.len(),
        k <= b.len(),
        a.take(k) == b.take(k),
    ensures
        k < a.len() && k < b.len() && a[k] < b[k] ==> text_before(a, b),
        k == a.len() && k < b.len() ==> text_before(a, b),
    decreases k,
{
    if k > 0 {
        assert(a[0] == a.take(k)[0] && b[0] == b.take(k)[0]);
        assert(a.skip(1).take(k - 1) =~= a.take(k).skip(1));
        assert(b.skip(1).take(k - 1) =~= b.take(k).skip(1));
        texts_are_ordered_by_character(a.skip(1), b.skip(1), k - 1);
    }
}

/// Paths are ordered by their first component that differs, and a directory comes before what is in it.
pub proof fn paths_are_ordered_by_component(a: Seq<char>, b: Seq<char>, k: int)
    requires
        0 <= k <= path::components_of(a).len(),
        k <= path::components_of(b).len(),
        path::components_of(a).take(k) == path::components_of(b).take(k),
    ensures
        ({
            let left = path::components_of(a);
            let right = path::components_of(b);
            &&& k < left.len() && k < right.len() && path::is_name(left[k]) && path::is_name(
                right[k],
            ) && text_before(left[k], right[k]) ==> path_before(a, b)
            &&& k == left.len() && k < right.len() ==> path_before(a, b)
        }),
{
    let left = path::components_of(a);
    let right = path::components_of(b);
    components_are_ordered(left, right, k);
}

proof fn components_are_ordered(a: Seq<Seq<char>>, b: Seq<Seq<char>>, k: int)
    requires
        0 <= k <= a.len(),
        k <= b.len(),
        a.take(k) == b.take(k),
    ensures
        k < a.len() && k < b.len() && component_before(a[k], b[k]) ==> components_before(a, b),
        k == a.len() && k < b.len() ==> components_before(a, b),
    decreases k,
{
    if k > 0 {
        assert(a[0] == a.take(k)[0] && b[0] == b.take(k)[0]);
        assert(a.skip(1).take(k - 1) =~= a.take(k).skip(1));
        assert(b.skip(1).take(k - 1) =~= b.take(k).skip(1));
        components_are_ordered(a.skip(1), b.skip(1), k - 1);
    }
}

} // verus!
