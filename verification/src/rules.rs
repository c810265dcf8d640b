use vstd::prelude::*;
use crate::error::DasGridError;
use crate::grid::Grid;
use crate::model::GridModel;

verus! {

/// Whether `rule`, asked about `value` at `at`, may answer `verdict`.
///
/// A rule is any function that the caller supplies; this is all that the
/// library knows about it.
pub open spec fn rule_may_return<T, R: Fn((i32, i32), &T) -> Result<(), DasGridError>>(
    rule: R,
    at: (i32, i32),
    value: T,
    verdict: Result<(), DasGridError>,
) -> bool {
    call_ensures(rule, (at, &value), verdict)
}

/// Whether `rules`, asked in order about `value` at `at` and stopping at
/// the first refusal, may answer `verdict`.
///
/// `Ok` is the answer when every rule accepts. `Err(e)` is the answer
/// when some rule refuses with `e` after all the rules before it accepted.
pub open spec fn rules_may_return<T, R: Fn((i32, i32), &T) -> Result<(), DasGridError>>(
    rules: Seq<R>,
    at: (i32, i32),
    value: T,
    verdict: Result<(), DasGridError>,
) -> bool {
    match verdict {
        Ok(_) => forall|i: int|
            0 <= i < rules.len() ==> rule_may_return(#[trigger] rules[i], at, value, Ok(())),
        Err(e) => exists|k: int|
            {
                &&& 0 <= k < rules.len()
                &&& rule_may_return(#[trigger] rules[k], at, value, Err(e))
                &&& forall|i: int|
                    0 <= i < k ==> rule_may_return(#[trigger] rules[i], at, value, Ok(()))
            },
    }
}

/// Whether every one of `rules` may be asked about `value` at `at`.
pub open spec fn rules_may_be_asked<T, R: Fn((i32, i32), &T) -> Result<(), DasGridError>>(
    rules: Seq<R>,
    at: (i32, i32),
    value: T,
) -> bool {
    forall|i: int| 0 <= i < rules.len() ==> call_requires(#[trigger] rules[i], (at, &value))
}

/// Asks `rules` in order about `value` at `at` and stops at the first
/// refusal, which it returns.
pub fn check_rules<T, R>(rules: &Vec<R>, at: (i32, i32), value: &T) -> (verdict: Result<
    (),
    DasGridError,
>) where R: Fn((i32, i32), &T) -> Result<(), DasGridError>
    requires
        rules_may_be_asked(rules@, at, *value),
    ensures
        rules_may_return(rules@, at, *value, verdict),
{
    let mut k: usize = 0;
    while k < rules.len()
        invariant
            k <= rules@.len(),
            rules_may_be_asked(rules@, at, *value),
            forall|i: int| 0 <= i < k ==> rule_may_return(#[trigger] rules@[i], at, *value, Ok(())),
        decreases rules@.len() - k,
    {
        let rule = &rules[k];
        let answer = rule(at, value);
        match answer {
            Ok(_) => {
                assert(answer->Ok_0 == ());
                assert(rule_may_return(rules@[k as int], at, *value, Ok(())));
            },
            Err(e) => {
                assert(rule_may_return(rules@[k as int], at, *value, Err(e)));
                return Err(e);
            },
        }
        k += 1;
    }
    Ok(())
}

/// What writing `value` to `dst` under `rules` may do to a grid that was
/// `before`: the answer `res` and the grid `after`.
///
/// The rules are asked first, about `value` itself. The cell is written if
/// they all accept and `dst` lies in the grid. Otherwise nothing changes,
/// and the answer is the first refusal, or `OutOfGrid` where no rule
/// refused.
pub open spec fn set_with_rules_outcome<T, R: Fn((i32, i32), &T) -> Result<(), DasGridError>>(
    before: GridModel<T>,
    dst: (i32, i32),
    value: T,
    rules: Seq<R>,
    res: Result<(), DasGridError>,
    after: GridModel<T>,
) -> bool {
    match res {
        Ok(_) => {
            &&& rules_may_return(rules, dst, value, Ok(()))
            &&& before.in_bounds(dst)
            &&& after == before.set(dst, value)
        },
        Err(e) => {
            &&& after == before
            &&& {
                ||| rules_may_return(rules, dst, value, Err(e))
                ||| {
                    &&& rules_may_return(rules, dst, value, Ok(()))
                    &&& !before.in_bounds(dst)
                    &&& e == DasGridError::OutOfGrid
                }
            }
        },
    }
}

impl<T: Copy> Grid<T> {
    /// Overwrites the cell at `dst` with `value` if every rule accepts
    /// `value` there.
    pub fn set_with_rules<R>(&mut self, dst: (i32, i32), value: &T, rules: Vec<R>) -> (res: Result<
        (),
        DasGridError,
    >) where R: Fn((i32, i32), &T) -> Result<(), DasGridError>
        requires
            old(self).wf(),
            rules_may_be_asked(rules@, dst, *value),
        ensures
            final(self).wf(),
            set_with_rules_outcome(old(self)@, dst, *value, rules@, res, final(self)@),
    {
        check_rules(&rules, dst, value)?;
        self.set(dst, value)?;
        Ok(())
    }
}

/// A list of rules of which none can refuse is passed.
pub proof fn lemma_accepting_rules_pass<T, R: Fn((i32, i32), &T) -> Result<(), DasGridError>>(
    rules: Seq<R>,
    at: (i32, i32),
    value: T,
    verdict: Result<(), DasGridError>,
)
    requires
        forall|i: int, e: DasGridError|
            0 <= i < rules.len() ==> !#[trigger] rule_may_return(rules[i], at, value, Err(e)),
        rules_may_return(rules, at, value, verdict),
    ensures
        verdict is Ok,
{
}

/// A list that holds a rule which never accepts is never passed.
pub proof fn lemma_refusing_rule_blocks<T, R: Fn((i32, i32), &T) -> Result<(), DasGridError>>(
    rules: Seq<R>,
    at: (i32, i32),
    value: T,
    k: int,
    verdict: Result<(), DasGridError>,
)
    requires
        0 <= k < rules.len(),
        !rule_may_return(rules[k], at, value, Ok(())),
        rules_may_return(rules, at, value, verdict),
    ensures
        verdict is Err,
{
}

/// Where every rule of a list can refuse with `RuleFailed` only, a refusal
/// of the list is `RuleFailed`.
pub proof fn lemma_refusal_is_rule_failed<T, R: Fn((i32, i32), &T) -> Result<(), DasGridError>>(
    rules: Seq<R>,
    at: (i32, i32),
    value: T,
    e: DasGridError,
)
    requires
        forall|i: int, other: DasGridError|
            0 <= i < rules.len() && #[trigger] rule_may_return(rules[i], at, value, Err(other))
                ==> other == DasGridError::RuleFailed,
        rules_may_return(rules, at, value, Err(e)),
    ensures
        e == DasGridError::RuleFailed,
{
}

/// Writing under rules of which one never accepts the value, and which
/// refuse with `RuleFailed` only, is answered with `RuleFailed` and
/// changes nothing.
pub proof fn lemma_set_with_refusing_rule<T, R: Fn((i32, i32), &T) -> Result<(), DasGridError>>(
    before: GridModel<T>,
    dst: (i32, i32),
    value: T,
    rules: Seq<R>,
    k: int,
    res: Result<(), DasGridError>,
    after: GridModel<T>,
)
    requires
        0 <= k < rules.len(),
        !rule_may_return(rules[k], dst, value, Ok(())),
        forall|i: int, other: DasGridError|
            0 <= i < rules.len() && #[trigger] rule_may_return(rules[i], dst, value, Err(other))
                ==> other == DasGridError::RuleFailed,
        set_with_rules_outcome(before, dst, value, rules, res, after),
    ensures
        res == Err::<(), DasGridError>(DasGridError::RuleFailed),
        after == before,
{
    match res {
        Ok(_) => {
            lemma_refusing_rule_blocks(rules, dst, value, k, Ok(()));
        },
        Err(e) => {
            if rules_may_return(rules, dst, value, Err(e)) {
                lemma_refusal_is_rule_failed(rules, dst, value, e);
            } else {
                lemma_refusing_rule_blocks(rules, dst, value, k, Ok(()));
            }
        },
    }
}

} // verus!
