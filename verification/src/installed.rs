//! A model of the installed set: the immediate entries of the platform font
//! directory, one entry per installed font. Installing a font makes its entry
//! exist (creating it or overwriting it in place); uninstalling removes it
//! and ignores its absence.

use vstd::prelude::*;
use vstd::string::*;

verus! {

/// How often `name` occurs among the entries.
pub open spec fn count_of(entries: Seq<Seq<char>>, name: Seq<char>) -> nat
    decreases entries.len(),
{
    if entries.len() == 0 {
        0
    } else {
        (if entries[0] == name {
            1nat
        } else {
            0nat
        }) + count_of(entries.skip(1), name)
    }
}

/// A directory holds each entry name at most once.
pub open spec fn entries_wf(entries: Seq<Seq<char>>) -> bool {
    forall|a: int, b: int| 0 <= a < b < entries.len() ==> entries[a] != entries[b]
}

/// The entries after installing `name`: extraction targets the entry bearing
/// the font's name, so an existing entry is overwritten in place and a new
/// one is appended.
pub open spec fn spec_record_install(entries: Seq<Seq<char>>, name: Seq<char>) -> Seq<Seq<char>> {
    if entries.contains(name) {
        entries
    } else {
        entries.push(name)
    }
}

/// The entries after uninstalling `name`: every entry bearing that name is
/// gone, the rest keep their order.
pub open spec fn spec_record_uninstall(entries: Seq<Seq<char>>, name: Seq<char>) -> Seq<Seq<char>>
    decreases entries.len(),
{
    if entries.len() == 0 {
        Seq::empty()
    } else if entries[0] == name {
        spec_record_uninstall(entries.skip(1), name)
    } else {
        seq![entries[0]] + spec_record_uninstall(entries.skip(1), name)
    }
}

/// Whether two texts hold the same characters.
pub fn str_eq(a: &str, b: &str) -> (r: bool)
    ensures
        r == (a@ == b@),
{
    let sa = a.to_owned();
    let sb = b.to_owned();
    sa == sb
}

/// Whether `name` is among the entries.
pub fn entries_contain(entries: &Vec<String>, name: &str) -> (r: bool)
    ensures
        r == entries.deep_view().contains(name@),
{
    let mut i: usize = 0;
    while i < entries.len()
        invariant
            0 <= i <= entries@.len(),
            forall|j: int| 0 <= j < i ==> entries.deep_view()[j] != name@,
        decreases entries@.len() - i,
    {
        if str_eq(entries[i].as_str(), name) {
            assert(entries.deep_view()[i as int] == name@);
            return true;
        }
        i += 1;
    }
    false
}

/// The directory entries after installing `name` into a directory that held
/// `entries`.
pub fn record_install(entries: &Vec<String>, name: &str) -> (r: Vec<String>)
    ensures
        r.deep_view() == spec_record_install(entries.deep_view(), name@),
{
    let mut out: Vec<String> = Vec::new();
    let mut i: usize = 0;
    while i < entries.len()
        invariant
            0 <= i <= entries@.len(),
            out@.len() == i,
            forall|j: int| 0 <= j < i ==> out.deep_view()[j] == entries.deep_view()[j],
        decreases entries@.len() - i,
    {
        out.push(entries[i].clone());
        i += 1;
    }
    if entries_contain(entries, name) {
        proof {
            assert(out.deep_view() =~~= entries.deep_view());
        }
        out
    } else {
        let ghost pre = out.deep_view();
        out.push(name.to_owned());
        proof {
            assert(pre =~~= entries.deep_view());
            assert(out.deep_view() =~~= entries.deep_view().push(name@));
        }
        out
    }
}

/// The directory entries after uninstalling `name` from a directory that
/// held `entries`. Total: removing an absent font succeeds and removes
/// nothing.
pub fn record_uninstall(entries: &Vec<String>, name: &str) -> (r: Vec<String>)
    ensures
        r.deep_view() == spec_record_uninstall(entries.deep_view(), name@),
{
    let mut out: Vec<String> = Vec::new();
    let mut i: usize = 0;
    proof {
        assert(entries.deep_view().skip(0) =~= entries.deep_view());
        assert(out.deep_view() + spec_record_uninstall(entries.deep_view(), name@)
            =~~= spec_record_uninstall(entries.deep_view(), name@));
    }
    while i < entries.len()
        invariant
            0 <= i <= entries@.len(),
            spec_record_uninstall(entries.deep_view(), name@) == out.deep_view()
                + spec_record_uninstall(entries.deep_view().skip(i as int), name@),
        decreases entries@.len() - i,
    {
        let ghost rem = entries.deep_view().skip(i as int);
        proof {
            assert(rem.len() > 0);
            assert(rem[0] == entries.deep_view()[i as int]);
            assert(rem.skip(1) =~= entries.deep_view().skip(i + 1));
        }
        if str_eq(entries[i].as_str(), name) {
            proof {
                assert(entries.deep_view()[i as int] == name@);
            }
        } else {
            let ghost pre = out.deep_view();
            out.push(entries[i].clone());
            proof {
                assert(out.deep_view() =~~= pre.push(rem[0]));
                assert(pre.push(rem[0]) + spec_record_uninstall(rem.skip(1), name@) =~~= pre + (
                seq![rem[0]] + spec_record_uninstall(rem.skip(1), name@)));
            }
        }
        i += 1;
    }
    proof {
        assert(entries.deep_view().skip(entries@.len() as int).len() == 0);
        assert(out.deep_view() + spec_record_uninstall(
            entries.deep_view().skip(entries@.len() as int),
            name@,
        ) =~~= out.deep_view());
    }
    out
}

proof fn lemma_count_absent(entries: Seq<Seq<char>>, name: Seq<char>)
    requires
        !entries.contains(name),
    ensures
        count_of(entries, name) == 0,
    decreases entries.len(),
{
    if entries.len() > 0 {
        assert(entries[0] != name);
        assert(forall|j: int| 0 <= j < entries.skip(1).len() ==> entries.skip(1)[j] == entries[j + 1]);
        assert(!entries.skip(1).contains(name));
        lemma_count_absent(entries.skip(1), name);
    }
}

proof fn lemma_count_push(entries: Seq<Seq<char>>, name: Seq<char>)
    ensures
        count_of(entries.push(name), name) == count_of(entries, name) + 1,
    decreases entries.len(),
{
    if entries.len() == 0 {
        assert(entries.push(name)[0] == name);
        assert(entries.push(name).skip(1) =~~= Seq::<Seq<char>>::empty());
        assert(count_of(entries.push(name).skip(1), name) == 0);
        assert(count_of(entries.push(name), name) == 1nat + count_of(
            entries.push(name).skip(1),
            name,
        ));
        assert(count_of(entries, name) == 0);
    } else {
        let pushed = entries.push(name);
        assert(pushed.len() == entries.len() + 1);
        assert(pushed[0] == entries[0]);
        assert(pushed.skip(1) =~~= entries.skip(1).push(name));
        lemma_count_push(entries.skip(1), name);
        assert(count_of(pushed, name) == (if pushed[0] == name {
            1nat
        } else {
            0nat
        }) + count_of(pushed.skip(1), name));
        assert(count_of(entries, name) == (if entries[0] == name {
            1nat
        } else {
            0nat
        }) + count_of(entries.skip(1), name));
    }
}

proof fn lemma_count_present_once(entries: Seq<Seq<char>>, name: Seq<char>)
    requires
        entries_wf(entries),
        entries.contains(name),
    ensures
        count_of(entries, name) == 1,
    decreases entries.len(),
{
    assert(entries.len() > 0);
    assert(forall|j: int| 0 <= j < entries.skip(1).len() ==> entries.skip(1)[j] == entries[j + 1]);
    if entries[0] == name {
        assert(forall|j: int| 0 <= j < entries.skip(1).len() ==> entries.skip(1)[j] != name);
        assert(!entries.skip(1).contains(name));
        lemma_count_absent(entries.skip(1), name);
    } else {
        let w = choose|w: int| 0 <= w < entries.len() && entries[w] == name;
        assert(entries.skip(1)[w - 1] == name);
        assert(entries.skip(1).contains(name));
        assert(entries_wf(entries.skip(1)));
        lemma_count_present_once(entries.skip(1), name);
    }
}

/// The round-trip law: installing a font into a well-formed directory leaves
/// a well-formed directory in which the font's name occurs exactly once —
/// listing the installed fonts after an install includes that font exactly
/// once.
pub proof fn lemma_install_then_list_once(entries: Seq<Seq<char>>, name: Seq<char>)
    requires
        entries_wf(entries),
    ensures
        count_of(spec_record_install(entries, name), name) == 1,
        entries_wf(spec_record_install(entries, name)),
{
    if entries.contains(name) {
        lemma_count_present_once(entries, name);
    } else {
        lemma_count_absent(entries, name);
        lemma_count_push(entries, name);
        let pushed = entries.push(name);
        assert forall|a: int, b: int| 0 <= a < b < pushed.len() implies pushed[a] != pushed[b] by {
            if b == entries.len() {
                assert(entries[a] == pushed[a]);
                assert(!entries.contains(name));
                assert(entries[a] != name);
            }
        }
    }
}

/// The idempotence law: uninstalling a font that is not present changes
/// nothing — the operation succeeds and the directory keeps its entries.
pub proof fn lemma_uninstall_absent_is_noop(entries: Seq<Seq<char>>, name: Seq<char>)
    requires
        !entries.contains(name),
    ensures
        spec_record_uninstall(entries, name) == entries,
    decreases entries.len(),
{
    if entries.len() > 0 {
        assert(entries[0] != name);
        assert(forall|j: int| 0 <= j < entries.skip(1).len() ==> entries.skip(1)[j] == entries[j + 1]);
        assert(!entries.skip(1).contains(name));
        lemma_uninstall_absent_is_noop(entries.skip(1), name);
        assert(seq![entries[0]] + entries.skip(1) =~~= entries);
    }
}

/// Uninstalling removes every trace of the font: its name does not occur in
/// the entries afterwards.
pub proof fn lemma_uninstall_removes(entries: Seq<Seq<char>>, name: Seq<char>)
    ensures
        count_of(spec_record_uninstall(entries, name), name) == 0,
    decreases entries.len(),
{
    if entries.len() > 0 {
        lemma_uninstall_removes(entries.skip(1), name);
        if entries[0] != name {
            let rest = spec_record_uninstall(entries.skip(1), name);
            assert(seq![entries[0]] + rest =~~= rest.insert(0, entries[0]));
            lemma_count_insert_other(rest, entries[0], name);
        }
    }
}

proof fn lemma_count_insert_other(entries: Seq<Seq<char>>, other: Seq<char>, name: Seq<char>)
    requires
        other != name,
    ensures
        count_of(entries.insert(0, other), name) == count_of(entries, name),
{
    let inserted = entries.insert(0, other);
    assert(inserted[0] == other);
    assert(inserted.skip(1) =~~= entries);
}

} // verus!
