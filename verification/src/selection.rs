use crate::terminal::{has_named, terminal_views, Terminal, TerminalSet, TerminalView};
use crate::text::views;
use vstd::prelude::*;

verus! {

/// The first terminal of `all` that carries the name `name`.
pub open spec fn first_named(all: Seq<TerminalView>, name: Seq<char>) -> Option<TerminalView>
    decreases all.len(),
{
    if all.len() == 0 {
        None
    } else if all.first().name == name {
        Some(all.first())
    } else {
        first_named(all.drop_first(), name)
    }
}

/// The terminals of `all` that the names select: for each name the first
/// terminal that carries it. A name that no terminal carries selects nothing.
pub open spec fn named_targets(all: Seq<TerminalView>, names: Seq<Seq<char>>) -> Set<
    TerminalView,
> {
    Set::new(
        |t: TerminalView|
            exists|i: int| 0 <= i < names.len() && #[trigger] first_named(all, names[i]) == Some(t),
    )
}

/// The terminals of `all` that are not banned, in the order of `all`.
pub open spec fn not_banned(all: Seq<TerminalView>, banned: Set<TerminalView>) -> Seq<
    TerminalView,
> {
    all.filter(|t: TerminalView| !banned.contains(t))
}

/// Whether `listing` holds each member of `set` once and nothing else.
pub open spec fn lists(listing: Seq<TerminalView>, set: Set<TerminalView>) -> bool {
    listing.no_duplicates() && listing.to_set() == set
}

/// Whether `listing` is a valid answer to the question which terminals are
/// active. Pinned terminals come first: where any is pinned, the pinned ones
/// are active, in any order, and the banned set is not looked at. Where none
/// is pinned, the terminals of `all` that are not banned are active, in the
/// order of `all`.
pub open spec fn is_active_listing(
    listing: Seq<TerminalView>,
    all: Seq<TerminalView>,
    pinned: Set<TerminalView>,
    banned: Set<TerminalView>,
) -> bool {
    if pinned != Set::<TerminalView>::empty() {
        lists(listing, pinned)
    } else {
        listing == not_banned(all, banned)
    }
}

/// Whether only `t` carries its name among the members of `set`.
pub open spec fn alone_under_name(set: Set<TerminalView>, t: TerminalView) -> bool {
    forall|u: TerminalView| #[trigger] set.contains(u) && u.name == t.name ==> u == t
}

/// What holds of a set `after` terminals were taken out of `before` by name,
/// one member for each name in turn. Nothing is added; a member whose name
/// is not given stays; a member that alone carries a name that is given
/// leaves; and of each name that is given and carried, one carrier has left.
pub open spec fn released(
    before: Set<TerminalView>,
    names: Seq<Seq<char>>,
    after: Set<TerminalView>,
) -> bool {
    &&& after.subset_of(before)
    &&& forall|t: TerminalView| #[trigger]
        before.contains(t) && !names.contains(t.name) ==> after.contains(t)
    &&& forall|t: TerminalView| #[trigger]
        before.contains(t) && names.contains(t.name) && alone_under_name(before, t)
            ==> !after.contains(t)
    &&& forall|i: int|
        0 <= i < names.len() && has_named(before, #[trigger] names[i]) ==> exists|
            t: TerminalView,
        | #[trigger]
            before.contains(t) && t.name == names[i] && !after.contains(t)
}

/// Where the terminal at position `i` carries the name and none before it
/// does, `first_named` finds that terminal; where none carries the name, it
/// finds nothing.
pub proof fn lemma_first_named_at(all: Seq<TerminalView>, name: Seq<char>, i: int)
    requires
        0 <= i <= all.len(),
        forall|k: int| 0 <= k < i ==> all[k].name != name,
        i < all.len() ==> all[i].name == name,
    ensures
        first_named(all, name) == if i < all.len() {
            Some(all[i])
        } else {
            None
        },
    decreases all.len(),
{
    if all.len() > 0 && i > 0 {
        let rest = all.drop_first();
        assert forall|k: int| 0 <= k < i - 1 implies rest[k].name != name by {
            assert(rest[k] == all[k + 1]);
        }
        lemma_first_named_at(rest, name, i - 1);
    }
}

/// What `first_named` finds is a terminal of `all` that carries the name.
pub proof fn lemma_first_named_member(all: Seq<TerminalView>, name: Seq<char>)
    ensures
        first_named(all, name) matches Some(t) ==> all.contains(t) && t.name == name,
        first_named(all, name) is None ==> forall|k: int|
            0 <= k < all.len() ==> (#[trigger] all[k]).name != name,
    decreases all.len(),
{
    if all.len() > 0 {
        if all.first().name == name {
            assert(all[0] == all.first());
        } else {
            let rest = all.drop_first();
            lemma_first_named_member(rest, name);
            if let Some(t) = first_named(rest, name) {
                let k = choose|k: int| 0 <= k < rest.len() && rest[k] == t;
                assert(all[k + 1] == t);
            } else {
                assert forall|k: int| 0 <= k < all.len() implies (#[trigger] all[k]).name
                    != name by {
                    if k > 0 {
                        assert(rest[k - 1] == all[k]);
                    }
                }
            }
        }
    }
}

/// The position in `all` of the first terminal that carries the name.
pub fn find_by_name(all: &Vec<Terminal>, name: &String) -> (r: Option<usize>)
    ensures
        r matches Some(i) ==> i < all.len() && first_named(terminal_views(all@), name@) == Some(
            all@[i as int]@,
        ),
        r is None ==> first_named(terminal_views(all@), name@) is None,
{
    let mut i: usize = 0;
    while i < all.len()
        invariant
            i <= all.len(),
            forall|k: int| 0 <= k < i ==> terminal_views(all@)[k].name != name@,
        decreases all.len() - i,
    {
        if all[i].name == *name {
            proof {
                lemma_first_named_at(terminal_views(all@), name@, i as int);
            }
            return Some(i);
        }
        i = i + 1;
    }
    proof {
        lemma_first_named_at(terminal_views(all@), name@, i as int);
    }
    None
}

proof fn lemma_named_targets_push(all: Seq<TerminalView>, names: Seq<Seq<char>>, name: Seq<char>)
    ensures
        named_targets(all, names.push(name)) == match first_named(all, name) {
            Some(t) => named_targets(all, names).insert(t),
            None => named_targets(all, names),
        },
{
    let bigger = names.push(name);
    let lhs = named_targets(all, bigger);
    let rhs = match first_named(all, name) {
        Some(t) => named_targets(all, names).insert(t),
        None => named_targets(all, names),
    };
    assert forall|t: TerminalView| lhs.contains(t) <==> rhs.contains(t) by {
        if lhs.contains(t) {
            let i = choose|i: int|
                0 <= i < bigger.len() && #[trigger] first_named(all, bigger[i]) == Some(t);
            if i < names.len() {
                assert(bigger[i] == names[i]);
                assert(first_named(all, names[i]) == Some(t));
            }
        }
        if rhs.contains(t) {
            if named_targets(all, names).contains(t) {
                let i = choose|i: int|
                    0 <= i < names.len() && #[trigger] first_named(all, names[i]) == Some(t);
                assert(bigger[i] == names[i]);
                assert(first_named(all, bigger[i]) == Some(t));
            } else {
                assert(bigger[names.len() as int] == name);
                assert(first_named(all, bigger[names.len() as int]) == Some(t));
            }
        }
    }
    assert(lhs =~= rhs);
}

/// Adds to `set`, for each name, the first terminal of `all` that carries
/// it. A name that no terminal carries is passed over.
pub fn add_to_set(all: &Vec<Terminal>, set: &mut TerminalSet, names: &Vec<String>)
    ensures
        final(set)@ == old(set)@.union(named_targets(terminal_views(all@), views(names@))),
{
    let ghost targets = terminal_views(all@);
    let mut k: usize = 0;
    proof {
        assert(views(names@).take(0) =~= Seq::<Seq<char>>::empty());
        assert(set@.union(named_targets(targets, Seq::<Seq<char>>::empty())) =~= set@);
    }
    while k < names.len()
        invariant
            k <= names.len(),
            targets == terminal_views(all@),
            set@ == old(set)@.union(named_targets(targets, views(names@).take(k as int))),
        decreases names.len() - k,
    {
        let ghost seen = views(names@).take(k as int);
        proof {
            assert(views(names@).take(k + 1) =~= seen.push(names@[k as int]@));
            lemma_named_targets_push(targets, seen, names@[k as int]@);
        }
        match find_by_name(all, &names[k]) {
            Some(i) => {
                set.insert(all[i].duplicate());
                proof {
                    assert(set@ =~= old(set)@.union(
                        named_targets(targets, views(names@).take(k + 1)),
                    ));
                }
            },
            None => {},
        }
        k = k + 1;
    }
    proof {
        assert(views(names@).take(k as int) =~= views(names@));
    }
}

proof fn lemma_release_step(
    before: Set<TerminalView>,
    names: Seq<Seq<char>>,
    name: Seq<char>,
    current: Set<TerminalView>,
    next: Set<TerminalView>,
)
    requires
        released(before, names, current),
        has_named(current, name) ==> exists|t: TerminalView| #[trigger]
            current.contains(t) && t.name == name && next == current.remove(t),
        !has_named(current, name) ==> next == current,
    ensures
        released(before, names.push(name), next),
{
    let bigger = names.push(name);
    assert forall|n: Seq<char>| bigger.contains(n) <==> (names.contains(n) || n == name) by {
        if bigger.contains(n) {
            let i = choose|i: int| 0 <= i < bigger.len() && bigger[i] == n;
            if i < names.len() {
                assert(names[i] == n);
            }
        }
        if names.contains(n) {
            let i = choose|i: int| 0 <= i < names.len() && names[i] == n;
            assert(bigger[i] == n);
        }
        if n == name {
            assert(bigger[names.len() as int] == n);
        }
    }
    assert(next.subset_of(current));
    assert forall|t: TerminalView| #[trigger]
        before.contains(t) && bigger.contains(t.name) && alone_under_name(
            before,
            t,
        ) implies !next.contains(t) by {
        if !names.contains(t.name) && current.contains(t) {
            assert(has_named(current, name));
            let u = choose|u: TerminalView| #[trigger]
                current.contains(u) && u.name == name && next == current.remove(u);
            assert(before.contains(u));
        }
    }
    assert forall|i: int| 0 <= i < bigger.len() && has_named(before, #[trigger] bigger[i]) implies (
    exists|t: TerminalView| #[trigger]
        before.contains(t) && t.name == bigger[i] && !next.contains(t)) by {
        if i < names.len() {
            assert(bigger[i] == names[i]);
            let t = choose|t: TerminalView| #[trigger]
                before.contains(t) && t.name == names[i] && !current.contains(t);
            assert(before.contains(t) && t.name == bigger[i] && !next.contains(t));
        } else {
            assert(bigger[i] == name);
            if has_named(current, name) {
                let u = choose|u: TerminalView| #[trigger]
                    current.contains(u) && u.name == name && next == current.remove(u);
                assert(before.contains(u) && u.name == bigger[i] && !next.contains(u));
            } else {
                let t = choose|t: TerminalView| #[trigger] before.contains(t) && t.name == name;
                assert(!current.contains(t));
                assert(before.contains(t) && t.name == bigger[i] && !next.contains(t));
            }
        }
    }
}

/// Takes terminals out of `set` by name, one member for each name in turn.
/// A name that no member carries is passed over. With no name at all the
/// whole set is emptied.
pub fn remove_from_set(set: &mut TerminalSet, names: &Vec<String>)
    ensures
        names.len() == 0 ==> final(set)@ == Set::<TerminalView>::empty(),
        names.len() > 0 ==> released(old(set)@, views(names@), final(set)@),
{
    if names.len() == 0 {
        set.clear();
        return;
    }
    let mut k: usize = 0;
    proof {
        assert(views(names@).take(0) =~= Seq::<Seq<char>>::empty());
    }
    while k < names.len()
        invariant
            k <= names.len(),
            released(old(set)@, views(names@).take(k as int), set@),
        decreases names.len() - k,
    {
        let ghost seen = views(names@).take(k as int);
        let ghost current = set@;
        set.remove_named(&names[k]);
        proof {
            assert(views(names@).take(k + 1) =~= seen.push(names@[k as int]@));
            lemma_release_step(old(set)@, seen, names@[k as int]@, current, set@);
        }
        k = k + 1;
    }
    proof {
        assert(views(names@).take(k as int) =~= views(names@));
    }
}

/// With no terminal banned, every terminal is let through.
pub proof fn lemma_not_banned_none(all: Seq<TerminalView>)
    ensures
        not_banned(all, Set::<TerminalView>::empty()) == all,
    decreases all.len(),
{
    reveal(Seq::filter);
    if all.len() > 0 {
        lemma_not_banned_none(all.drop_last());
        assert(all.drop_last().push(all.last()) =~= all);
    }
}

/// The terminals that are active, given those that are pinned and banned.
pub fn resolve_active(all: &Vec<Terminal>, pinned: &TerminalSet, banned: &TerminalSet) -> (r: Vec<
    Terminal,
>)
    ensures
        is_active_listing(terminal_views(r@), terminal_views(all@), pinned@, banned@),
{
    if !pinned.is_empty() {
        return pinned.to_vec();
    }
    let ghost targets = terminal_views(all@);
    let mut r: Vec<Terminal> = Vec::new();
    let mut i: usize = 0;
    proof {
        reveal(Seq::filter);
        assert(targets.take(0) =~= Seq::<TerminalView>::empty());
        assert(terminal_views(r@) =~= Seq::<TerminalView>::empty());
    }
    while i < all.len()
        invariant
            i <= all.len(),
            targets == terminal_views(all@),
            terminal_views(r@) == not_banned(targets.take(i as int), banned@),
        decreases all.len() - i,
    {
        let ghost before = terminal_views(r@);
        proof {
            reveal(Seq::filter);
            assert(targets.take(i + 1).drop_last() =~= targets.take(i as int));
            assert(targets.take(i + 1).last() == all@[i as int]@);
        }
        if !banned.contains(&all[i]) {
            r.push(all[i].duplicate());
            proof {
                assert(terminal_views(r@) =~= before.push(all@[i as int]@));
            }
        }
        i = i + 1;
    }
    proof {
        assert(targets.take(i as int) =~= targets);
    }
    r
}

/// Pinned terminals come before banned ones: while any terminal is pinned,
/// the active terminals are the pinned ones, whatever is banned, be it one
/// of the pinned ones.
pub proof fn lemma_pinned_wins(
    listing: Seq<TerminalView>,
    all: Seq<TerminalView>,
    pinned: Set<TerminalView>,
    banned: Set<TerminalView>,
)
    requires
        pinned != Set::<TerminalView>::empty(),
    ensures
        is_active_listing(listing, all, pinned, banned) <==> lists(listing, pinned),
        is_active_listing(listing, all, pinned, banned) ==> forall|t: TerminalView|
            listing.contains(t) <==> pinned.contains(t),
{
}

/// With no terminal pinned, the active terminals are those that are known
/// and not banned.
pub proof fn lemma_ban_only(
    listing: Seq<TerminalView>,
    all: Seq<TerminalView>,
    banned: Set<TerminalView>,
)
    requires
        is_active_listing(listing, all, Set::<TerminalView>::empty(), banned),
    ensures
        forall|t: TerminalView| listing.contains(t) <==> all.contains(t) && !banned.contains(t),
{
    let keep = |t: TerminalView| !banned.contains(t);
    assert forall|t: TerminalView| listing.contains(t) <==> all.contains(t) && !banned.contains(
        t,
    ) by {
        if listing.contains(t) {
            let i = choose|i: int| 0 <= i < listing.len() && listing[i] == t;
            all.lemma_filter_pred(keep, i);
            all.lemma_filter_contains_rev(keep, t);
        }
        if all.contains(t) && !banned.contains(t) {
            let i = choose|i: int| 0 <= i < all.len() && all[i] == t;
            all.lemma_filter_contains(keep, i);
        }
    }
}

/// With no terminal pinned and none banned, every known terminal is
/// active, in the order in which they are known.
pub proof fn lemma_nothing_selected(listing: Seq<TerminalView>, all: Seq<TerminalView>)
    requires
        is_active_listing(
            listing,
            all,
            Set::<TerminalView>::empty(),
            Set::<TerminalView>::empty(),
        ),
    ensures
        listing == all,
{
    lemma_not_banned_none(all);
}

/// Selecting by the same names a second time changes nothing.
pub proof fn lemma_add_twice(
    all: Seq<TerminalView>,
    set: Set<TerminalView>,
    names: Seq<Seq<char>>,
)
    ensures
        set.union(named_targets(all, names)).union(named_targets(all, names)) == set.union(
            named_targets(all, names),
        ),
{
    assert(set.union(named_targets(all, names)).union(named_targets(all, names)) =~= set.union(
        named_targets(all, names),
    ));
}

/// Names that no known terminal carries select nothing: adding by them
/// leaves a set as it is.
pub proof fn lemma_unknown_names(
    all: Seq<TerminalView>,
    set: Set<TerminalView>,
    names: Seq<Seq<char>>,
)
    requires
        forall|i: int, k: int|
            0 <= i < names.len() && 0 <= k < all.len() ==> (#[trigger] all[k]).name
                != #[trigger] names[i],
    ensures
        named_targets(all, names) == Set::<TerminalView>::empty(),
        set.union(named_targets(all, names)) == set,
{
    assert forall|t: TerminalView| !named_targets(all, names).contains(t) by {
        if named_targets(all, names).contains(t) {
            let i = choose|i: int|
                0 <= i < names.len() && #[trigger] first_named(all, names[i]) == Some(t);
            lemma_first_named_member(all, names[i]);
            let k = choose|k: int| 0 <= k < all.len() && all[k] == t;
            assert(all[k].name == names[i]);
        }
    }
    assert(named_targets(all, names) =~= Set::<TerminalView>::empty());
    assert(set.union(named_targets(all, names)) =~= set);
}

/// Every terminal that names select is a known terminal that carries one
/// of the names.
pub proof fn lemma_named_targets_known(all: Seq<TerminalView>, names: Seq<Seq<char>>)
    ensures
        forall|t: TerminalView| #[trigger]
            named_targets(all, names).contains(t) ==> all.contains(t) && names.contains(t.name),
{
    assert forall|t: TerminalView| #[trigger]
        named_targets(all, names).contains(t) implies all.contains(t) && names.contains(
        t.name,
    ) by {
        let i = choose|i: int|
            0 <= i < names.len() && #[trigger] first_named(all, names[i]) == Some(t);
        lemma_first_named_member(all, names[i]);
        assert(names[i] == t.name);
    }
}

/// Where no two members of a set carry one name, taking out by names
/// leaves exactly the members whose name is not given.
pub proof fn lemma_released_exact(
    before: Set<TerminalView>,
    names: Seq<Seq<char>>,
    after: Set<TerminalView>,
)
    requires
        released(before, names, after),
        forall|t: TerminalView| #[trigger] before.contains(t) ==> alone_under_name(before, t),
    ensures
        after == before.filter(|t: TerminalView| !names.contains(t.name)),
{
    assert(after =~= before.filter(|t: TerminalView| !names.contains(t.name)));
}

} // verus!
