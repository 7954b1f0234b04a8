//! Differences between the functions a contract promises and the functions
//! the code provides: missing ones, extra ones, and signature mismatches.
use crate::text::{chars_of, join, join_chars, lemma_chars_deep_view, push_all, push_line, push_str, string_of};
use crate::validate::contract::{pair_strs, sig_view, sig_views, has_name, ContractSpec, FunctionSig, SigModel};
use vstd::prelude::*;

verus! {

/// The differences between a contract and the code.
#[derive(Debug, Clone)]
pub struct ApiDiff {
    pub missing_in_code: Vec<FunctionSig>,
    pub extra_in_code: Vec<FunctionSig>,
    pub signature_mismatch: Vec<SignatureMismatch>,
}

/// A function whose signature in the code differs from the contract.
#[derive(Debug, Clone)]
pub struct SignatureMismatch {
    pub name: String,
    /// The signature as the contract gives it.
    pub expected: String,
    /// The signature as the code has it.
    pub actual: String,
}

/// `name: type` for each parameter.
pub open spec fn param_texts(ps: Seq<(Seq<char>, Seq<char>)>) -> Seq<Seq<char>> {
    Seq::new(ps.len(), |i: int| ps[i].0 + ": "@ + ps[i].1)
}

/// A signature written out as `fn name(a: A, b: B) -> R`.
pub open spec fn render_sig(m: SigModel) -> Seq<char> {
    "fn "@ + m.0 + "("@ + join(param_texts(m.1), ", "@) + ") -> "@ + m.2
}

/// Index of the first signature named `n`, from `i` on.
pub open spec fn first_named(sigs: Seq<SigModel>, n: Seq<char>, i: int) -> Option<int>
    decreases sigs.len() - i,
{
    if i < 0 || i >= sigs.len() {
        None
    } else if sigs[i].0 == n {
        Some(i)
    } else {
        first_named(sigs, n, i + 1)
    }
}

/// The contract's signatures with no function of that name in the code.
pub open spec fn missing_spec(contract: Seq<SigModel>, code: Seq<SigModel>) -> Seq<SigModel>
    decreases contract.len(),
{
    if contract.len() == 0 {
        Seq::empty()
    } else {
        let before = missing_spec(contract.drop_last(), code);
        if first_named(code, contract.last().0, 0) is None {
            before.push(contract.last())
        } else {
            before
        }
    }
}

/// The code's signatures with no function of that name in the contract.
pub open spec fn extra_spec(contract: Seq<SigModel>, code: Seq<SigModel>) -> Seq<SigModel>
    decreases code.len(),
{
    if code.len() == 0 {
        Seq::empty()
    } else {
        let before = extra_spec(contract, code.drop_last());
        if !has_name(contract, code.last().0) {
            before.push(code.last())
        } else {
            before
        }
    }
}

/// (name, expected, actual) for each contract function whose first
/// namesake in the code has other parameters or another return type.
pub open spec fn mismatch_spec(contract: Seq<SigModel>, code: Seq<SigModel>) -> Seq<(Seq<char>, Seq<char>, Seq<char>)>
    decreases contract.len(),
{
    if contract.len() == 0 {
        Seq::empty()
    } else {
        let before = mismatch_spec(contract.drop_last(), code);
        let c = contract.last();
        match first_named(code, c.0, 0) {
            Some(j) => if code[j].1 != c.1 || code[j].2 != c.2 {
                before.push((c.0, render_sig(c), render_sig(code[j])))
            } else {
                before
            },
            None => before,
        }
    }
}

/// The values of each mismatch.
pub open spec fn mismatch_views(v: Seq<SignatureMismatch>) -> Seq<(Seq<char>, Seq<char>, Seq<char>)> {
    Seq::new(v.len(), |i: int| (v[i].name@, v[i].expected@, v[i].actual@))
}

proof fn lemma_first_named(sigs: Seq<SigModel>, n: Seq<char>, i: int)
    requires
        0 <= i <= sigs.len(),
    ensures
        first_named(sigs, n, i) matches Some(j) ==> i <= j < sigs.len() && sigs[j].0 == n,
        first_named(sigs, n, i) is None ==> forall|k: int| i <= k < sigs.len() ==> (#[trigger] sigs[k]).0 != n,
    decreases sigs.len() - i,
{
    if i < sigs.len() && sigs[i].0 != n {
        lemma_first_named(sigs, n, i + 1);
    }
}

/// The signatures carry pairwise different names.
pub open spec fn names_distinct(sigs: Seq<SigModel>) -> bool {
    forall|i: int, j: int| 0 <= i < j < sigs.len() ==> (#[trigger] sigs[i]).0 != (#[trigger] sigs[j]).0
}

proof fn lemma_first_named_at(sigs: Seq<SigModel>, k: int, i: int)
    requires
        names_distinct(sigs),
        0 <= i <= k < sigs.len(),
    ensures
        first_named(sigs, sigs[k].0, i) == Some(k),
    decreases k - i,
{
    if i < k {
        assert(sigs[i].0 != sigs[k].0);
        lemma_first_named_at(sigs, k, i + 1);
    }
}

proof fn lemma_self_diff_prefix(cs: Seq<SigModel>, m: int)
    requires
        names_distinct(cs),
        0 <= m <= cs.len(),
    ensures
        missing_spec(cs.take(m), cs).len() == 0,
        mismatch_spec(cs.take(m), cs).len() == 0,
        extra_spec(cs, cs.take(m)).len() == 0,
    decreases m,
{
    if m > 0 {
        let a = cs.take(m);
        assert(a.drop_last() =~= cs.take(m - 1));
        assert(a.last() == cs[m - 1]);
        lemma_self_diff_prefix(cs, m - 1);
        lemma_first_named_at(cs, m - 1, 0);
        assert(has_name(cs, cs[m - 1].0));
    }
}

/// A contract diffed against code that has exactly its functions (with
/// pairwise different names) shows nothing missing, extra or mismatched.
pub proof fn law_self_diff_is_clean(cs: Seq<SigModel>)
    requires
        names_distinct(cs),
    ensures
        missing_spec(cs, cs).len() == 0,
        extra_spec(cs, cs).len() == 0,
        mismatch_spec(cs, cs).len() == 0,
{
    lemma_self_diff_prefix(cs, cs.len() as int);
    assert(cs.take(cs.len() as int) =~= cs);
}

proof fn lemma_first_named_is(sigs: Seq<SigModel>, n: Seq<char>, j: int, i: int)
    requires
        0 <= i <= j < sigs.len(),
        sigs[j].0 == n,
        forall|m: int| 0 <= m < j ==> (#[trigger] sigs[m]).0 != n,
    ensures
        first_named(sigs, n, i) == Some(j),
    decreases j - i,
{
    if i < j {
        lemma_first_named_is(sigs, n, j, i + 1);
    }
}

/// A contract function whose first namesake in the code has other
/// parameters or another return type is reported as a mismatch, with the
/// two signatures written out.
pub proof fn law_changed_signature_is_reported(
    contract: Seq<SigModel>,
    code: Seq<SigModel>,
    k: int,
    j: int,
)
    requires
        0 <= k < contract.len(),
        0 <= j < code.len(),
        code[j].0 == contract[k].0,
        forall|m: int| 0 <= m < j ==> (#[trigger] code[m]).0 != contract[k].0,
        code[j].1 != contract[k].1 || code[j].2 != contract[k].2,
    ensures
        exists|m: int|
            0 <= m < mismatch_spec(contract, code).len() && #[trigger] mismatch_spec(contract, code)[m] == (
                contract[k].0,
                render_sig(contract[k]),
                render_sig(code[j]),
            ),
    decreases contract.len(),
{
    let before = mismatch_spec(contract.drop_last(), code);
    if k == contract.len() - 1 {
        lemma_first_named_is(code, contract[k].0, j, 0);
        assert(contract.last() == contract[k]);
        let all = mismatch_spec(contract, code);
        assert(all == before.push((contract[k].0, render_sig(contract[k]), render_sig(code[j]))));
        assert(all[before.len() as int] == (contract[k].0, render_sig(contract[k]), render_sig(code[j])));
    } else {
        let init = contract.drop_last();
        assert(init[k] == contract[k]);
        law_changed_signature_is_reported(init, code, k, j);
        let m = choose|m: int|
            0 <= m < before.len() && #[trigger] before[m] == (
                init[k].0,
                render_sig(init[k]),
                render_sig(code[j]),
            );
        let all = mismatch_spec(contract, code);
        assert(all.len() >= before.len() && all[m] == before[m]);
    }
}

/// The diff shows no mismatch only when every contract function's first
/// namesake in the code has the same parameters and the same return type.
pub proof fn law_no_mismatch_means_same_signatures(contract: Seq<SigModel>, code: Seq<SigModel>, k: int, j: int)
    requires
        mismatch_spec(contract, code).len() == 0,
        0 <= k < contract.len(),
        0 <= j < code.len(),
        code[j].0 == contract[k].0,
        forall|m: int| 0 <= m < j ==> (#[trigger] code[m]).0 != contract[k].0,
    ensures
        code[j].1 == contract[k].1 && code[j].2 == contract[k].2,
{
    if code[j].1 != contract[k].1 || code[j].2 != contract[k].2 {
        law_changed_signature_is_reported(contract, code, k, j);
    }
}

/// A copy of a signature.
fn copy_sig(f: &FunctionSig) -> (r: FunctionSig)
    ensures
        sig_view(r) == sig_view(*f),
{
    let mut params: Vec<(String, String)> = Vec::new();
    let mut i: usize = 0;
    while i < f.params.len()
        invariant
            i <= f.params@.len(),
            pair_strs(params@) == pair_strs(f.params@).take(i as int),
        decreases f.params@.len() - i,
    {
        let ghost before = pair_strs(params@);
        let a = f.params[i].0.clone();
        let b = f.params[i].1.clone();
        params.push((a, b));
        proof {
            assert(pair_strs(params@) =~= before.push((f.params@[i as int].0@, f.params@[i as int].1@)));
            assert(pair_strs(f.params@).take(i + 1) =~= pair_strs(f.params@).take(i as int).push(
                (f.params@[i as int].0@, f.params@[i as int].1@),
            ));
        }
        i = i + 1;
    }
    proof {
        assert(pair_strs(f.params@).take(i as int) =~= pair_strs(f.params@));
    }
    FunctionSig { name: f.name.clone(), params, return_type: f.return_type.clone() }
}

/// A signature written out as `fn name(a: A, b: B) -> R`.
fn render(f: &FunctionSig) -> (r: String)
    ensures
        r@ == render_sig(sig_view(*f)),
{
    let ghost ps = pair_strs(f.params@);
    let mut parts: Vec<Vec<char>> = Vec::new();
    let mut i: usize = 0;
    while i < f.params.len()
        invariant
            i <= f.params@.len(),
            ps == pair_strs(f.params@),
            parts.deep_view() == param_texts(ps).take(i as int),
        decreases f.params@.len() - i,
    {
        let mut t = chars_of(f.params[i].0.as_str());
        push_str(&mut t, ": ");
        push_str(&mut t, f.params[i].1.as_str());
        push_line(&mut parts, t);
        i = i + 1;
        proof {
            assert(parts.deep_view() =~= param_texts(ps).take(i as int));
        }
    }
    proof {
        assert(param_texts(ps).take(i as int) =~= param_texts(ps));
    }
    let sep = chars_of(", ");
    let mut v = chars_of("fn ");
    push_str(&mut v, f.name.as_str());
    push_str(&mut v, "(");
    push_all(&mut v, join_chars(&parts, sep.as_slice()).as_slice());
    push_str(&mut v, ") -> ");
    push_str(&mut v, f.return_type.as_str());
    string_of(v.as_slice())
}

/// Whether two strings are equal.
fn same_string(a: &String, b: &String) -> (r: bool)
    ensures
        r == (a@ == b@),
{
    crate::text::str_eq(a.as_str(), b.as_str())
}

/// Whether two parameter lists are equal, pair by pair.
fn same_params(a: &Vec<(String, String)>, b: &Vec<(String, String)>) -> (r: bool)
    ensures
        r == (pair_strs(a@) == pair_strs(b@)),
{
    if a.len() != b.len() {
        proof {
            assert(pair_strs(a@).len() != pair_strs(b@).len());
        }
        return false;
    }
    let mut i: usize = 0;
    while i < a.len()
        invariant
            i <= a@.len() == b@.len(),
            forall|k: int| 0 <= k < i ==> #[trigger] pair_strs(a@)[k] == pair_strs(b@)[k],
        decreases a@.len() - i,
    {
        if !same_string(&a[i].0, &b[i].0) || !same_string(&a[i].1, &b[i].1) {
            proof {
                assert(pair_strs(a@)[i as int] != pair_strs(b@)[i as int]);
            }
            return false;
        }
        i = i + 1;
    }
    proof {
        assert(pair_strs(a@) =~= pair_strs(b@));
    }
    true
}

/// Index of the first function named `n`.
fn find_named(sigs: &[FunctionSig], n: &String) -> (r: Option<usize>)
    ensures
        (match r {
            Some(j) => Some(j as int),
            None => None,
        }) == first_named(sig_views(sigs@), n@, 0),
{
    let mut i: usize = 0;
    while i < sigs.len()
        invariant
            i <= sigs@.len(),
            first_named(sig_views(sigs@), n@, 0) == first_named(sig_views(sigs@), n@, i as int),
        decreases sigs@.len() - i,
    {
        if same_string(&sigs[i].name, n) {
            return Some(i);
        }
        i = i + 1;
    }
    None
}

/// Whether some function is named `n`.
fn any_named(sigs: &Vec<FunctionSig>, n: &String) -> (r: bool)
    ensures
        r == has_name(sig_views(sigs@), n@),
{
    let mut i: usize = 0;
    while i < sigs.len()
        invariant
            i <= sigs@.len(),
            forall|k: int| 0 <= k < i ==> (#[trigger] sig_views(sigs@)[k]).0 != n@,
        decreases sigs@.len() - i,
    {
        if same_string(&sigs[i].name, n) {
            proof {
                assert(sig_views(sigs@)[i as int].0 == n@);
            }
            return true;
        }
        i = i + 1;
    }
    false
}

/// Compares the contract's functions with the functions the code provides.
pub fn diff_contract_vs_code(contract: &ContractSpec, code_fns: &[FunctionSig]) -> (d: ApiDiff)
    ensures
        sig_views(d.missing_in_code@) == missing_spec(sig_views(contract.functions@), sig_views(code_fns@)),
        sig_views(d.extra_in_code@) == extra_spec(sig_views(contract.functions@), sig_views(code_fns@)),
        mismatch_views(d.signature_mismatch@) == mismatch_spec(sig_views(contract.functions@), sig_views(code_fns@)),
{
    let ghost cs = sig_views(contract.functions@);
    let ghost ks = sig_views(code_fns@);
    let mut missing: Vec<FunctionSig> = Vec::new();
    let mut mismatches: Vec<SignatureMismatch> = Vec::new();
    let mut i: usize = 0;
    proof {
        assert(cs.take(0) =~= Seq::<SigModel>::empty());
    }
    while i < contract.functions.len()
        invariant
            i <= contract.functions@.len(),
            cs == sig_views(contract.functions@),
            ks == sig_views(code_fns@),
            sig_views(missing@) == missing_spec(cs.take(i as int), ks),
            mismatch_views(mismatches@) == mismatch_spec(cs.take(i as int), ks),
        decreases contract.functions@.len() - i,
    {
        let cf = &contract.functions[i];
        proof {
            assert(cs.take(i + 1).drop_last() =~= cs.take(i as int));
            assert(cs.take(i + 1).last() == sig_view(*cf));
        }
        match find_named(code_fns, &cf.name) {
            None => {
                let ghost before = sig_views(missing@);
                missing.push(copy_sig(cf));
                proof {
                    assert(sig_views(missing@) =~= before.push(sig_view(*cf)));
                }
            },
            Some(j) => {
                proof {
                    lemma_first_named(ks, cf.name@, 0);
                }
                let kf = &code_fns[j];
                let params_match = same_params(&cf.params, &kf.params);
                let return_match = same_string(&cf.return_type, &kf.return_type);
                if !params_match || !return_match {
                    let ghost before = mismatch_views(mismatches@);
                    let m = SignatureMismatch { name: cf.name.clone(), expected: render(cf), actual: render(kf) };
                    mismatches.push(m);
                    proof {
                        assert(mismatch_views(mismatches@) =~= before.push(
                            (cf.name@, render_sig(sig_view(*cf)), render_sig(sig_view(*kf))),
                        ));
                    }
                }
            },
        }
        i = i + 1;
    }
    proof {
        assert(cs.take(i as int) =~= cs);
    }
    let mut extra: Vec<FunctionSig> = Vec::new();
    let mut k: usize = 0;
    proof {
        assert(ks.take(0) =~= Seq::<SigModel>::empty());
    }
    while k < code_fns.len()
        invariant
            k <= code_fns@.len(),
            cs == sig_views(contract.functions@),
            ks == sig_views(code_fns@),
            sig_views(extra@) == extra_spec(cs, ks.take(k as int)),
        decreases code_fns@.len() - k,
    {
        let kf = &code_fns[k];
        proof {
            assert(ks.take(k + 1).drop_last() =~= ks.take(k as int));
            assert(ks.take(k + 1).last() == sig_view(*kf));
        }
        if !any_named(&contract.functions, &kf.name) {
            let ghost before = sig_views(extra@);
            extra.push(copy_sig(kf));
            proof {
                assert(sig_views(extra@) =~= before.push(sig_view(*kf)));
            }
        }
        k = k + 1;
    }
    proof {
        assert(ks.take(k as int) =~= ks);
    }
    ApiDiff { missing_in_code: missing, extra_in_code: extra, signature_mismatch: mismatches }
}

impl ApiDiff {
    /// No function is missing, extra or mismatched.
    pub fn is_clean(&self) -> (r: bool)
        ensures
            r == (self.missing_in_code@.len() == 0 && self.extra_in_code@.len() == 0
                && self.signature_mismatch@.len() == 0),
    {
        self.missing_in_code.len() == 0 && self.extra_in_code.len() == 0 && self.signature_mismatch.len() == 0
    }
}

} // verus!
