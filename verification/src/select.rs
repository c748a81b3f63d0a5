//! Namespace selection support: grouping the cluster's namespaces by their
//! first letter (upper-cased), with groups ordered by letter, and resolving
//! the operator's interactive choices with a safe default on failure.  The
//! interactive prompt itself lives outside the library.

use vstd::prelude::*;
use vstd::string::*;

use crate::text::strings_view;

verus! {

/// The ASCII upper-case fold of one character: a lower-case ASCII letter is
/// mapped to its upper-case counterpart, anything else stays as it is.
pub open spec fn spec_upper(c: char) -> char {
    if c == 'a' {
        'A'
    } else if c == 'b' {
        'B'
    } else if c == 'c' {
        'C'
    } else if c == 'd' {
        'D'
    } else if c == 'e' {
        'E'
    } else if c == 'f' {
        'F'
    } else if c == 'g' {
        'G'
    } else if c == 'h' {
        'H'
    } else if c == 'i' {
        'I'
    } else if c == 'j' {
        'J'
    } else if c == 'k' {
        'K'
    } else if c == 'l' {
        'L'
    } else if c == 'm' {
        'M'
    } else if c == 'n' {
        'N'
    } else if c == 'o' {
        'O'
    } else if c == 'p' {
        'P'
    } else if c == 'q' {
        'Q'
    } else if c == 'r' {
        'R'
    } else if c == 's' {
        'S'
    } else if c == 't' {
        'T'
    } else if c == 'u' {
        'U'
    } else if c == 'v' {
        'V'
    } else if c == 'w' {
        'W'
    } else if c == 'x' {
        'X'
    } else if c == 'y' {
        'Y'
    } else if c == 'z' {
        'Z'
    } else {
        c
    }
}

/// Upper-cases one ASCII letter, leaving every other character unchanged.
pub fn upper_char(c: char) -> (r: char)
    ensures
        r == spec_upper(c),
{
    if c == 'a' {
        'A'
    } else if c == 'b' {
        'B'
    } else if c == 'c' {
        'C'
    } else if c == 'd' {
        'D'
    } else if c == 'e' {
        'E'
    } else if c == 'f' {
        'F'
    } else if c == 'g' {
        'G'
    } else if c == 'h' {
        'H'
    } else if c == 'i' {
        'I'
    } else if c == 'j' {
        'J'
    } else if c == 'k' {
        'K'
    } else if c == 'l' {
        'L'
    } else if c == 'm' {
        'M'
    } else if c == 'n' {
        'N'
    } else if c == 'o' {
        'O'
    } else if c == 'p' {
        'P'
    } else if c == 'q' {
        'Q'
    } else if c == 'r' {
        'R'
    } else if c == 's' {
        'S'
    } else if c == 't' {
        'T'
    } else if c == 'u' {
        'U'
    } else if c == 'v' {
        'V'
    } else if c == 'w' {
        'W'
    } else if c == 'x' {
        'X'
    } else if c == 'y' {
        'Y'
    } else if c == 'z' {
        'Z'
    } else {
        c
    }
}

/// One group of namespaces sharing a first letter.
pub struct NsGroup {
    /// The shared first letter, upper-cased.
    pub key: char,
    /// The group's namespaces, in the order the server listed them.
    pub members: Vec<String>,
}

pub struct NsGroupView {
    pub key: char,
    pub members: Seq<Seq<char>>,
}

impl View for NsGroup {
    type V = NsGroupView;

    open spec fn view(&self) -> NsGroupView {
        NsGroupView { key: self.key, members: strings_view(self.members@) }
    }
}

/// View of a group list as a sequence of group views.
pub open spec fn groups_views(s: Seq<NsGroup>) -> Seq<NsGroupView> {
    s.map_values(|g: NsGroup| g@)
}

/// The names whose upper-cased first letter is `key`, in order; nameless
/// (empty) entries belong to no group.
pub open spec fn spec_group_members(names: Seq<Seq<char>>, key: char) -> Seq<Seq<char>>
    decreases names.len(),
{
    if names.len() == 0 {
        Seq::empty()
    } else {
        spec_group_members(names.drop_last(), key) + if names.last().len() > 0 && spec_upper(
            names.last()[0],
        ) == key {
            seq![names.last()]
        } else {
            Seq::empty()
        }
    }
}

/// `k` inserted into the ascending duplicate-free key sequence `keys`,
/// keeping it ascending and duplicate-free.
pub open spec fn spec_insert_key(keys: Seq<char>, k: char) -> Seq<char>
    decreases keys.len(),
{
    if keys.len() == 0 {
        seq![k]
    } else if keys.last() == k {
        keys
    } else if (keys.last() as u32) < (k as u32) {
        keys.push(k)
    } else {
        spec_insert_key(keys.drop_last(), k).push(keys.last())
    }
}

/// The distinct upper-cased first letters of the names, in ascending order.
pub open spec fn spec_group_keys(names: Seq<Seq<char>>) -> Seq<char>
    decreases names.len(),
{
    if names.len() == 0 {
        Seq::empty()
    } else {
        let rest = spec_group_keys(names.drop_last());
        if names.last().len() == 0 {
            rest
        } else {
            spec_insert_key(rest, spec_upper(names.last()[0]))
        }
    }
}

/// Inserting at the position the scan finds is exactly the spec-level key
/// insertion: a present key leaves the sequence unchanged, a new one lands
/// between its neighbours.
proof fn lemma_insert_key_at(keys: Seq<char>, c: char, j: int)
    requires
        0 <= j <= keys.len(),
        forall|k: int| j <= k < keys.len() ==> (c as u32) < (keys[k] as u32),
        j > 0 ==> (keys[j - 1] as u32) <= (c as u32),
    ensures
        spec_insert_key(keys, c) == if j > 0 && keys[j - 1] == c {
            keys
        } else {
            keys.insert(j, c)
        },
    decreases keys.len(),
{
    if j == keys.len() {
        if keys.len() == 0 {
            assert(spec_insert_key(keys, c) =~= keys.insert(j, c));
        } else if keys.last() == c {
        } else {
            vstd::utf8::char_u32_cast(keys.last(), keys.last() as u32);
            vstd::utf8::char_u32_cast(c, c as u32);
            assert((keys.last() as u32) < (c as u32));
            assert(keys.push(c) =~= keys.insert(j, c));
        }
    } else {
        assert((c as u32) < (keys.last() as u32));
        lemma_insert_key_at(keys.drop_last(), c, j);
        if j > 0 && keys[j - 1] == c {
            assert(keys.drop_last().push(keys.last()) =~= keys);
        } else {
            assert(keys.drop_last().insert(j, c).push(keys.last()) =~= keys.insert(j, c));
        }
    }
}

/// Reads one character out of a character list.
fn char_at(keys: &Vec<char>, i: usize) -> (c: char)
    requires
        i < keys@.len(),
    ensures
        c == keys@[i as int],
{
    keys[i]
}

/// The position of `key` in the ascending key list, or where it belongs.
fn key_position(keys: &Vec<char>, key: char) -> (j: usize)
    ensures
        j <= keys@.len(),
        forall|k: int| j <= k < keys@.len() ==> (key as u32) < (keys@[k] as u32),
        j > 0 ==> (keys@[j - 1] as u32) <= (key as u32),
{
    let mut j = keys.len();
    while j > 0
        invariant
            j <= keys@.len(),
            forall|k: int| j <= k < keys@.len() ==> (key as u32) < (keys@[k] as u32),
        decreases j,
    {
        if keys[j - 1] as u32 <= key as u32 {
            return j;
        }
        j -= 1;
    }
    j
}

/// Groups the namespaces by their upper-cased first letter.  The groups come
/// in ascending letter order, each holding exactly the namespaces of that
/// letter in server order; nameless entries are dropped.
pub fn group_ns_by_first_letter(ns: &Vec<String>) -> (groups: Vec<NsGroup>)
    ensures
        groups_views(groups@).map_values(|g: NsGroupView| g.key) == spec_group_keys(
            strings_view(ns@),
        ),
        forall|t: int| 0 <= t < groups@.len() ==> #[trigger] groups_views(groups@)[t].members
            == spec_group_members(strings_view(ns@), groups_views(groups@)[t].key),
{
    let ghost names = strings_view(ns@);
    let mut keys: Vec<char> = Vec::new();
    let mut i: usize = 0;
    proof {
        assert(names.take(0) =~= Seq::<Seq<char>>::empty());
    }
    while i < ns.len()
        invariant
            i <= ns.len(),
            names == strings_view(ns@),
            names.len() == ns.len(),
            keys@ == spec_group_keys(names.take(i as int)),
            forall|a: int, b: int| 0 <= a < b < keys@.len() ==> (keys@[a] as u32) < (
            keys@[b] as u32),
        decreases ns.len() - i,
    {
        proof {
            assert(names.take(i as int + 1).drop_last() =~= names.take(i as int));
            assert(names.take(i as int + 1).last() == names[i as int]);
            assert(names[i as int] == ns@[i as int]@);
        }
        if ns[i].as_str().unicode_len() > 0 {
            let c = upper_char(ns[i].as_str().get_char(0));
            let j = key_position(&keys, c);
            let ghost prev = keys@;
            if j > 0 && keys[j - 1] == c {
                proof {
                    lemma_insert_key_at(prev, c, j as int);
                }
            } else {
                keys.insert(j, c);
                proof {
                    lemma_insert_key_at(prev, c, j as int);
                    let jj = j as int;
                    if jj > 0 {
                        vstd::utf8::char_u32_cast(prev[jj - 1], prev[jj - 1] as u32);
                        vstd::utf8::char_u32_cast(c, c as u32);
                        assert((prev[jj - 1] as u32) < (c as u32));
                    }
                    assert forall|a: int, b: int| 0 <= a < b < keys@.len() implies (
                    keys@[a] as u32) < (keys@[b] as u32) by {
                        if b < jj {
                            assert(keys@[a] == prev[a] && keys@[b] == prev[b]);
                        } else if b == jj {
                            assert(keys@[b] == c && keys@[a] == prev[a]);
                            assert((prev[jj - 1] as u32) < (c as u32));
                            if a < jj - 1 {
                                assert((prev[a] as u32) < (prev[jj - 1] as u32));
                            }
                        } else if a == jj {
                            assert(keys@[a] == c && keys@[b] == prev[b - 1]);
                            assert((c as u32) < (prev[b - 1] as u32));
                        } else if a < jj {
                            assert(keys@[a] == prev[a] && keys@[b] == prev[b - 1]);
                            assert((prev[jj - 1] as u32) < (c as u32));
                            assert((c as u32) < (prev[b - 1] as u32));
                            if a < jj - 1 {
                                assert((prev[a] as u32) < (prev[jj - 1] as u32));
                            }
                        } else {
                            assert(keys@[a] == prev[a - 1] && keys@[b] == prev[b - 1]);
                        }
                    }
                }
            }
        }
        i += 1;
    }
    proof {
        assert(names.take(ns@.len() as int) =~= names);
    }
    let mut groups: Vec<NsGroup> = Vec::new();
    let mut t: usize = 0;
    while t < keys.len()
        invariant
            t <= keys@.len(),
            names == strings_view(ns@),
            names.len() == ns.len(),
            groups@.len() == t,
            forall|u: int| 0 <= u < t ==> #[trigger] groups@[u]@.key == keys@[u],
            forall|u: int| 0 <= u < t ==> #[trigger] groups@[u]@.members == spec_group_members(
                names,
                keys@[u],
            ),
        decreases keys.len() - t,
    {
        let key = char_at(&keys, t);
        let mut members: Vec<String> = Vec::new();
        let mut i2: usize = 0;
        proof {
            assert(names.take(0) =~= Seq::<Seq<char>>::empty());
        }
        while i2 < ns.len()
            invariant
                i2 <= ns.len(),
                names == strings_view(ns@),
                names.len() == ns.len(),
                strings_view(members@) == spec_group_members(names.take(i2 as int), key),
            decreases ns.len() - i2,
        {
            proof {
                assert(names.take(i2 as int + 1).drop_last() =~= names.take(i2 as int));
                assert(names.take(i2 as int + 1).last() == names[i2 as int]);
                assert(names[i2 as int] == ns@[i2 as int]@);
            }
            let ghost prev = members@;
            if ns[i2].as_str().unicode_len() > 0 {
                let c = upper_char(ns[i2].as_str().get_char(0));
                if c == key {
                    members.push(ns[i2].clone());
                    proof {
                        assert(strings_view(members@) =~= strings_view(prev).push(
                            names[i2 as int],
                        ));
                    }
                }
            }
            proof {
                assert(strings_view(members@) == spec_group_members(
                    names.take(i2 as int + 1),
                    key,
                ));
            }
            i2 += 1;
        }
        proof {
            assert(names.take(ns@.len() as int) =~= names);
        }
        let ghost prev_groups = groups@;
        groups.push(NsGroup { key, members });
        proof {
            assert(groups@.len() == prev_groups.len() + 1);
            assert(groups@[t as int]@.key == keys@[t as int]);
            assert(groups@[t as int]@.members == spec_group_members(names, keys@[t as int]));
            assert(forall|u: int| 0 <= u < t ==> groups@[u] == prev_groups[u]);
        }
        t += 1;
    }
    proof {
        assert(groups_views(groups@).map_values(|g: NsGroupView| g.key) =~= keys@);
    }
    groups
}

/// The group an interactive choice picks: the chosen group's letter and
/// members, or — when the selection failed or points outside the list — the
/// underscore letter with the default namespace alone.
pub open spec fn spec_group_choice(groups: Seq<NsGroupView>, selection: Option<usize>) -> (char,
    Seq<Seq<char>>) {
    match selection {
        Some(ix) => if (ix as int) < groups.len() {
            (groups[ix as int].key, groups[ix as int].members)
        } else {
            ('_', seq!["default_namespace"@])
        },
        None => ('_', seq!["default_namespace"@]),
    }
}

/// Resolves the operator's group choice, falling back to the default
/// namespace when the selection failed.
pub fn resolve_group_selection(groups: &Vec<NsGroup>, selection: Option<usize>) -> (r: (
    char,
    Vec<String>,
))
    ensures
        r.0 == spec_group_choice(groups_views(groups@), selection).0,
        strings_view(r.1@) == spec_group_choice(groups_views(groups@), selection).1,
{
    match selection {
        Some(ix) => {
            if ix < groups.len() {
                let g = &groups[ix];
                let mut members: Vec<String> = Vec::new();
                let mut i: usize = 0;
                proof {
                    assert(strings_view(g.members@).take(0) =~= Seq::<Seq<char>>::empty());
                    assert(strings_view(members@) =~= Seq::<Seq<char>>::empty());
                }
                while i < g.members.len()
                    invariant
                        i <= g.members.len(),
                        strings_view(members@) == strings_view(g.members@).take(i as int),
                    decreases g.members.len() - i,
                {
                    let ghost prev = members@;
                    members.push(g.members[i].clone());
                    proof {
                        assert(strings_view(members@) =~= strings_view(prev).push(
                            g.members@[i as int]@,
                        ));
                        assert(strings_view(g.members@).take(i as int + 1) =~= strings_view(
                            g.members@,
                        ).take(i as int).push(strings_view(g.members@)[i as int]));
                    }
                    i += 1;
                }
                proof {
                    assert(strings_view(g.members@).take(g.members@.len() as int) =~= strings_view(
                        g.members@,
                    ));
                    assert(groups_views(groups@)[ix as int] == g@);
                }
                (g.key, members)
            } else {
                let fallback = vec![String::from_str("default_namespace")];
                proof {
                    assert(strings_view(fallback@) =~= seq!["default_namespace"@]);
                }
                ('_', fallback)
            }
        },
        None => {
            let fallback = vec![String::from_str("default_namespace")];
            proof {
                assert(strings_view(fallback@) =~= seq!["default_namespace"@]);
            }
            ('_', fallback)
        },
    }
}

/// The namespace an interactive choice picks from a group's members, or the
/// default namespace when the selection failed or points outside the list.
pub open spec fn spec_namespace_choice(namespaces: Seq<Seq<char>>, selection: Option<usize>) -> Seq<
    char,
> {
    match selection {
        Some(ix) => if (ix as int) < namespaces.len() {
            namespaces[ix as int]
        } else {
            "default_namespace"@
        },
        None => "default_namespace"@,
    }
}

/// Resolves the operator's namespace choice, falling back to the default
/// namespace when the selection failed.
pub fn resolve_namespace_selection(namespaces: &Vec<String>, selection: Option<usize>) -> (r:
    String)
    ensures
        r@ == spec_namespace_choice(strings_view(namespaces@), selection),
{
    match selection {
        Some(ix) => {
            if ix < namespaces.len() {
                proof {
                    assert(strings_view(namespaces@)[ix as int] == namespaces@[ix as int]@);
                }
                namespaces[ix].clone()
            } else {
                String::from_str("default_namespace")
            }
        },
        None => String::from_str("default_namespace"),
    }
}

} // verus!
