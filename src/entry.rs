//! Dispatch entries and their order by selector text.

use vstd::prelude::*;
use vstd::string::*;

verus! {

/// One routable function: the module that owns it, that module's deployment
/// address, the function's name, and its selector as `0x`-prefixed hex text.
pub struct RouterTemplateInputs {
    pub address: [u8; 20],
    pub contract_name: String,
    pub function_name: String,
    pub selector: String,
}

/// The mathematical content of an entry.
pub struct EntryView {
    pub address: Seq<u8>,
    pub contract_name: Seq<char>,
    pub function_name: Seq<char>,
    pub selector: Seq<char>,
}

impl View for RouterTemplateInputs {
    type V = EntryView;

    open spec fn view(&self) -> EntryView {
        EntryView {
            address: self.address@,
            contract_name: self.contract_name@,
            function_name: self.function_name@,
            selector: self.selector@,
        }
    }
}

/// The views of a sequence of entries.
pub open spec fn entry_views(s: Seq<RouterTemplateInputs>) -> Seq<EntryView> {
    s.map_values(|e: RouterTemplateInputs| e@)
}

impl RouterTemplateInputs {
    pub fn new(address: [u8; 20], contract_name: String, function_name: String, selector: String) -> (r: Self)
        ensures
            r.address@ == address@,
            r.contract_name@ == contract_name@,
            r.function_name@ == function_name@,
            r.selector@ == selector@,
    {
        RouterTemplateInputs { address, contract_name, function_name, selector }
    }
}

/// Lexicographic order on character sequences from position `i` on, by code
/// point (the order of `String`'s `cmp`): whether `a` sorts strictly before `b`.
pub open spec fn text_lt_from(a: Seq<char>, b: Seq<char>, i: int) -> bool
    decreases a.len() - i,
{
    if i >= a.len() {
        i < b.len()
    } else if i >= b.len() {
        false
    } else if a[i] != b[i] {
        (a[i] as u32) < (b[i] as u32)
    } else {
        text_lt_from(a, b, i + 1)
    }
}

/// Whether `a` sorts strictly before `b` in lexicographic text order.
pub open spec fn text_lt(a: Seq<char>, b: Seq<char>) -> bool {
    text_lt_from(a, b, 0)
}

/// Each entry's selector text sorts no later than the next one's.
pub open spec fn sorted_by_selector(s: Seq<RouterTemplateInputs>) -> bool {
    forall|k: int| 0 <= k < s.len() - 1 ==> !text_lt(#[trigger] s[k + 1].selector@, s[k].selector@)
}

proof fn lemma_text_lt_from_asymmetric(a: Seq<char>, b: Seq<char>, i: int)
    requires
        0 <= i,
        text_lt_from(a, b, i),
    ensures
        !text_lt_from(b, a, i),
    decreases a.len() - i,
{
    if i < a.len() && i < b.len() && a[i] == b[i] {
        lemma_text_lt_from_asymmetric(a, b, i + 1);
    }
}

/// Strict text order never holds both ways.
pub proof fn lemma_text_lt_asymmetric(a: Seq<char>, b: Seq<char>)
    requires
        text_lt(a, b),
    ensures
        !text_lt(b, a),
{
    lemma_text_lt_from_asymmetric(a, b, 0);
}

/// Whether text `a` sorts strictly before text `b`.
pub fn selector_lt(a: &str, b: &str) -> (r: bool)
    ensures
        r == text_lt(a@, b@),
{
    let la = a.unicode_len();
    let lb = b.unicode_len();
    let mut i: usize = 0;
    while i < la && i < lb
        invariant
            la == a@.len(),
            lb == b@.len(),
            i <= la,
            i <= lb,
            text_lt(a@, b@) == text_lt_from(a@, b@, i as int),
        decreases la - i,
    {
        let ca = a.get_char(i);
        let cb = b.get_char(i);
        if ca != cb {
            return (ca as u32) < (cb as u32);
        }
        i += 1;
    }
    i < lb
}

/// Sorts entries by selector text, keeping the order of equal selectors.
pub fn sort_by_selector(entries: Vec<RouterTemplateInputs>) -> (r: Vec<RouterTemplateInputs>)
    ensures
        sorted_by_selector(r@),
        r@.to_multiset() == entries@.to_multiset(),
{
    broadcast use vstd::seq_lib::group_to_multiset_ensures;
    broadcast use vstd::multiset::group_multiset_axioms;

    let mut rest = entries;
    let mut out: Vec<RouterTemplateInputs> = Vec::new();
    while rest.len() > 0
        invariant
            sorted_by_selector(out@),
            out@.to_multiset().add(rest@.to_multiset()) == entries@.to_multiset(),
        decreases rest@.len(),
    {
        let ghost rest0 = rest@;
        let e = rest.remove(0);
        let mut p: usize = 0;
        while p < out.len() && !selector_lt(e.selector.as_str(), out[p].selector.as_str())
            invariant
                p <= out@.len(),
                forall|k: int| 0 <= k < p ==> !text_lt(e.selector@, #[trigger] out@[k].selector@),
            decreases out@.len() - p,
        {
            p += 1;
        }
        proof {
            if p < out@.len() {
                lemma_text_lt_asymmetric(e.selector@, out@[p as int].selector@);
            }
            assert(rest0.contains(e)) by {
                assert(rest0[0] == e);
            }
            vstd::seq_lib::to_multiset_contains(rest0, e);
            vstd::seq_lib::to_multiset_remove(rest0, 0);
            vstd::seq_lib::to_multiset_insert(out@, p as int, e);
        }
        assert(p < out@.len() ==> text_lt(e.selector@, out@[p as int].selector@));
        let ghost out0 = out@;
        out.insert(p, e);
        proof {
            assert forall|k: int| 0 <= k < out@.len() - 1 implies !text_lt(
                #[trigger] out@[k + 1].selector@,
                out@[k].selector@,
            ) by {
                if k + 1 < p {
                    assert(out@[k] == out0[k] && out@[k + 1] == out0[k + 1]);
                } else if k + 1 == p {
                    assert(out@[k] == out0[k] && out@[k + 1] == e);
                    assert(!text_lt(e.selector@, out0[k].selector@));
                } else if k == p {
                    assert(out@[k] == e && out@[k + 1] == out0[k]);
                } else {
                    assert(out@[k] == out0[k - 1] && out@[k + 1] == out0[k]);
                    let j = k - 1;
                    assert(!text_lt(out0[j + 1].selector@, out0[j].selector@));
                }
            }
            assert(out@.to_multiset().add(rest@.to_multiset()) =~= entries@.to_multiset());
        }
    }
    out
}

} // verus!

verus! {

/// The entries whose module name no earlier entry has: the first entry of
/// each module, in order.
pub open spec fn first_per_module(s: Seq<RouterTemplateInputs>) -> Seq<RouterTemplateInputs>
    decreases s.len(),
{
    if s.len() == 0 {
        Seq::empty()
    } else {
        let prev = first_per_module(s.drop_last());
        if exists|j: int| 0 <= j < s.len() - 1 && #[trigger] s[j].contract_name@ == s.last().contract_name@ {
            prev
        } else {
            prev.push(s.last())
        }
    }
}

/// Each entry that `first_per_module` keeps is an entry of `s`.
proof fn lemma_first_per_module_from(s: Seq<RouterTemplateInputs>)
    ensures
        forall|i: int|
            0 <= i < first_per_module(s).len() ==> exists|k: int|
                0 <= k < s.len() && #[trigger] first_per_module(s)[i] == s[k],
    decreases s.len(),
{
    if s.len() > 0 {
        let prev = s.drop_last();
        lemma_first_per_module_from(prev);
        let f = first_per_module(s);
        assert forall|i: int| 0 <= i < f.len() implies exists|k: int| 0 <= k < s.len() && #[trigger] f[i] == s[k] by {
            if i < first_per_module(prev).len() {
                let k = choose|k: int| 0 <= k < prev.len() && first_per_module(prev)[i] == prev[k];
                assert(f[i] == s[k]);
            } else {
                assert(f[i] == s[s.len() - 1]);
            }
        }
    }
}

/// The module table holds each module once: the entries that
/// `first_per_module` keeps have distinct module names, and every module
/// name of `s` is among them.
pub proof fn lemma_one_entry_per_module(s: Seq<RouterTemplateInputs>)
    ensures
        forall|i: int, j: int|
            0 <= i < j < first_per_module(s).len() ==> #[trigger] first_per_module(s)[i].contract_name@
                != #[trigger] first_per_module(s)[j].contract_name@,
        forall|k: int|
            0 <= k < s.len() ==> exists|i: int|
                0 <= i < first_per_module(s).len() && #[trigger] first_per_module(s)[i].contract_name@
                    == #[trigger] s[k].contract_name@,
    decreases s.len(),
{
    if s.len() > 0 {
        let prev = s.drop_last();
        lemma_one_entry_per_module(prev);
        lemma_first_per_module_from(prev);
        let fp = first_per_module(prev);
        let f = first_per_module(s);
        let last = s.last();
        if exists|j: int| 0 <= j < s.len() - 1 && #[trigger] s[j].contract_name@ == last.contract_name@ {
            assert(f == fp);
            assert forall|k: int| 0 <= k < s.len() implies exists|i: int|
                0 <= i < f.len() && #[trigger] f[i].contract_name@ == #[trigger] s[k].contract_name@ by {
                if k < s.len() - 1 {
                    assert(s[k] == prev[k]);
                    let i = choose|i: int| 0 <= i < fp.len() && #[trigger] fp[i].contract_name@ == #[trigger] prev[k].contract_name@;
                    assert(f[i].contract_name@ == s[k].contract_name@);
                } else {
                    let j = choose|j: int| 0 <= j < s.len() - 1 && #[trigger] s[j].contract_name@ == last.contract_name@;
                    assert(s[j] == prev[j]);
                    let i = choose|i: int| 0 <= i < fp.len() && #[trigger] fp[i].contract_name@ == #[trigger] prev[j].contract_name@;
                    assert(f[i].contract_name@ == s[k].contract_name@);
                }
            }
        } else {
            assert(f == fp.push(last));
            assert forall|i: int, j: int| 0 <= i < j < f.len() implies #[trigger] f[i].contract_name@
                != #[trigger] f[j].contract_name@ by {
                if j == f.len() - 1 {
                    assert(f[i] == fp[i]);
                    let k = choose|k: int| 0 <= k < prev.len() && #[trigger] fp[i] == prev[k];
                    assert(prev[k] == s[k]);
                } else {
                    assert(f[i] == fp[i] && f[j] == fp[j]);
                }
            }
            assert forall|k: int| 0 <= k < s.len() implies exists|i: int|
                0 <= i < f.len() && #[trigger] f[i].contract_name@ == #[trigger] s[k].contract_name@ by {
                if k < s.len() - 1 {
                    assert(s[k] == prev[k]);
                    let i = choose|i: int| 0 <= i < fp.len() && #[trigger] fp[i].contract_name@ == #[trigger] prev[k].contract_name@;
                    assert(f[i] == fp[i]);
                } else {
                    assert(f[f.len() - 1] == s[k]);
                }
            }
        }
    }
}

} // verus!
