//! Declarative boolean conditions over telemetry selectors.
//!
//! A condition is a boolean expression whose leaves compare two sides, each
//! either a constant or a selector reading the request or response. It can
//! be evaluated in full against a request/response pair, partially against
//! the request alone (caching what the request already determined), or
//! against the response alone.

use vstd::prelude::*;

use crate::values::Value;
use crate::values::lemma_opt_same_as_congruence;
use crate::values::opt_same_as;
use crate::values::opt_value_eq;
use crate::values::value_eq;

verus! {

/// Extracts an attribute value from a request or a response. `None` means
/// the selector's subject is not available at that stage.
pub trait Selector {
    type Request;

    type Response;

    /// What the selector reads from a request.
    spec fn request_value(&self, request: &Self::Request) -> Option<Value>;

    /// What the selector reads from a response.
    spec fn response_value(&self, response: &Self::Response) -> Option<Value>;

    /// Reads the request; the result has the content [`Self::request_value`]
    /// describes.
    fn on_request(&self, request: &Self::Request) -> (r: Option<Value>)
        ensures
            opt_same_as(&r, &self.request_value(request)),
    ;

    /// Reads the response; the result has the content
    /// [`Self::response_value`] describes.
    fn on_response(&self, response: &Self::Response) -> (r: Option<Value>)
        ensures
            opt_same_as(&r, &self.response_value(response)),
    ;
}

/// The simplest selector: each stage carries an optional integer, and the
/// selector reads it as is.
pub struct I64Selector;

impl Selector for I64Selector {
    type Request = Option<i64>;

    type Response = Option<i64>;

    open spec fn request_value(&self, request: &Option<i64>) -> Option<Value> {
        match request {
            Some(v) => Some(Value::I64(*v)),
            None => None,
        }
    }

    open spec fn response_value(&self, response: &Option<i64>) -> Option<Value> {
        match response {
            Some(v) => Some(Value::I64(*v)),
            None => None,
        }
    }

    fn on_request(&self, request: &Option<i64>) -> (r: Option<Value>)
        ensures
            opt_same_as(&r, &self.request_value(request)),
    {
        match request {
            Some(v) => Some(Value::I64(*v)),
            None => None,
        }
    }

    fn on_response(&self, response: &Option<i64>) -> (r: Option<Value>)
        ensures
            opt_same_as(&r, &self.response_value(response)),
    {
        match response {
            Some(v) => Some(Value::I64(*v)),
            None => None,
        }
    }
}

/// One side of a comparison: a constant value, or a selector to extract a
/// value from the pipeline.
pub enum SelectorOrValue<T> {
    /// A constant value.
    Value(Value),
    /// Selector to extract a value from the pipeline.
    Selector(T),
}

impl<T: Selector> Selector for SelectorOrValue<T> {
    type Request = T::Request;

    type Response = T::Response;

    open spec fn request_value(&self, request: &T::Request) -> Option<Value> {
        match self {
            SelectorOrValue::Value(v) => Some(*v),
            SelectorOrValue::Selector(s) => s.request_value(request),
        }
    }

    open spec fn response_value(&self, response: &T::Response) -> Option<Value> {
        match self {
            SelectorOrValue::Value(v) => Some(*v),
            SelectorOrValue::Selector(s) => s.response_value(response),
        }
    }

    fn on_request(&self, request: &T::Request) -> (r: Option<Value>)
        ensures
            opt_same_as(&r, &self.request_value(request)),
    {
        match self {
            SelectorOrValue::Value(value) => Some(value.clone()),
            SelectorOrValue::Selector(selector) => selector.on_request(request),
        }
    }

    fn on_response(&self, response: &T::Response) -> (r: Option<Value>)
        ensures
            opt_same_as(&r, &self.response_value(response)),
    {
        match self {
            SelectorOrValue::Value(value) => Some(value.clone()),
            SelectorOrValue::Selector(selector) => selector.on_response(response),
        }
    }
}

/// A boolean expression over selector comparisons.
pub enum Condition<T> {
    /// A condition to check a selection against a value.
    Eq([SelectorOrValue<T>; 2]),
    /// All sub-conditions must be true.
    All(Vec<Condition<T>>),
    /// At least one sub-condition must be true.
    Any(Vec<Condition<T>>),
    /// The sub-condition must not be true.
    Not(Box<Condition<T>>),
    /// Static true condition.
    True,
    /// Static false condition.
    False,
}

impl<T> Default for Condition<T> {
    /// The default condition holds always.
    fn default() -> (c: Self)
        ensures
            c is True,
    {
        Condition::True
    }
}

impl Condition<()> {
    /// The empty condition: holds always.
    pub fn empty<T>() -> (c: Condition<T>)
        ensures
            c is True,
    {
        Condition::True
    }
}

/// The first of two optional values that is available.
pub open spec fn first_available(a: Option<Value>, b: Option<Value>) -> Option<Value> {
    if a is Some {
        a
    } else {
        b
    }
}

impl<T: Selector> Condition<T> {
    /// The value of a condition against a request/response pair. Each side
    /// of a comparison is read from the request first and falls back to the
    /// response; the two sides must then hold equal values.
    pub open spec fn eval(&self, request: &T::Request, response: &T::Response) -> bool
        decreases self,
    {
        match self {
            Condition::Eq(eq) => {
                let left = first_available(
                    eq[0].request_value(request),
                    eq[0].response_value(response),
                );
                let right = first_available(
                    eq[1].request_value(request),
                    eq[1].response_value(response),
                );
                opt_same_as(&left, &right)
            },
            Condition::All(all) => forall|i: int|
                0 <= i < all@.len() ==> (#[trigger] all@[i]).eval(request, response),
            Condition::Any(any) => exists|i: int|
                0 <= i < any@.len() && (#[trigger] any@[i]).eval(request, response),
            Condition::Not(not) => !not.eval(request, response),
            Condition::True => true,
            Condition::False => false,
        }
    }

    /// The value of a condition against a response alone: each comparison
    /// side is read from the response only.
    pub open spec fn eval_response(&self, response: &T::Response) -> bool
        decreases self,
    {
        match self {
            Condition::Eq(eq) => opt_same_as(
                &eq[0].response_value(response),
                &eq[1].response_value(response),
            ),
            Condition::All(all) => forall|i: int|
                0 <= i < all@.len() ==> (#[trigger] all@[i]).eval_response(response),
            Condition::Any(any) => exists|i: int|
                0 <= i < any@.len() && (#[trigger] any@[i]).eval_response(response),
            Condition::Not(not) => !not.eval_response(response),
            Condition::True => true,
            Condition::False => false,
        }
    }

    /// What the request alone decides: `Some` when every comparison the
    /// condition's value depends on is readable from the request, `None`
    /// when a response is still needed.
    pub open spec fn request_decided(&self, request: &T::Request) -> Option<bool>
        decreases self,
    {
        match self {
            Condition::Eq(eq) => match (
                eq[0].request_value(request),
                eq[1].request_value(request),
            ) {
                (Some(l), Some(r)) => Some(l.same_as(&r)),
                _ => None,
            },
            Condition::All(all) => {
                if all@.len() == 0 {
                    Some(true)
                } else if exists|i: int|
                    0 <= i < all@.len() && (#[trigger] all@[i]).request_decided(request) is None {
                    None
                } else {
                    Some(
                        forall|i: int|
                            0 <= i < all@.len() ==> (#[trigger] all@[i]).request_decided(request)
                                == Some(true),
                    )
                }
            },
            Condition::Any(any) => {
                if any@.len() == 0 {
                    Some(true)
                } else if exists|i: int|
                    0 <= i < any@.len() && (#[trigger] any@[i]).request_decided(request) is None {
                    None
                } else {
                    Some(
                        exists|i: int|
                            0 <= i < any@.len() && (#[trigger] any@[i]).request_decided(request)
                                == Some(true),
                    )
                }
            },
            Condition::Not(not) => match not.request_decided(request) {
                Some(b) => Some(!b),
                None => None,
            },
            Condition::True => Some(true),
            Condition::False => Some(false),
        }
    }

    /// Evaluates the condition against a request/response pair.
    #[verifier::loop_isolation(false)]
    pub fn evaluate(&self, request: &T::Request, response: &T::Response) -> (r: bool)
        ensures
            r == self.eval(request, response),
        decreases self,
    {
        match self {
            Condition::Eq(eq) => {
                let left = match eq[0].on_request(request) {
                    Some(v) => Some(v),
                    None => eq[0].on_response(response),
                };
                let right = match eq[1].on_request(request) {
                    Some(v) => Some(v),
                    None => eq[1].on_response(response),
                };
                let r = opt_value_eq(&left, &right);
                proof {
                    let ls = first_available(
                        eq[0].request_value(request),
                        eq[0].response_value(response),
                    );
                    let rs = first_available(
                        eq[1].request_value(request),
                        eq[1].response_value(response),
                    );
                    lemma_opt_same_as_congruence(&left, &ls, &right, &rs);
                }
                r
            },
            Condition::All(all) => {
                let mut i: usize = 0;
                while i < all.len()
                    invariant
                        i <= all@.len(),
                        forall|j: int|
                            0 <= j < i ==> (#[trigger] all@[j]).eval(request, response),
                    decreases all@.len() - i,
                {
                    if !all[i].evaluate(request, response) {
                        return false;
                    }
                    i = i + 1;
                }
                true
            },
            Condition::Any(any) => {
                let mut i: usize = 0;
                while i < any.len()
                    invariant
                        i <= any@.len(),
                        forall|j: int|
                            0 <= j < i ==> !(#[trigger] any@[j]).eval(request, response),
                    decreases any@.len() - i,
                {
                    if any[i].evaluate(request, response) {
                        return true;
                    }
                    i = i + 1;
                }
                false
            },
            Condition::Not(not) => !not.evaluate(request, response),
            Condition::True => true,
            Condition::False => false,
        }
    }

    /// Partially evaluates the condition against the request alone,
    /// caching in place each comparison side the request already resolved.
    /// Returns `Some` when the request determined the condition's value
    /// (see [`Self::request_decided`]); the rewritten condition relates to
    /// the original by [`request_rewrite`].
    #[verifier::loop_isolation(false)]
    pub fn evaluate_request(&mut self, request: &T::Request) -> (r: Option<bool>)
        ensures
            r == old(self).request_decided(request),
            request_rewrite(old(self), final(self), request),
        decreases *old(self),
    {
        match self {
            Condition::Eq(eq) => {
                let left = eq[0].on_request(request);
                let right = eq[1].on_request(request);
                proof {
                    lemma_opt_same_as_congruence(
                        &left,
                        &old(self)->Eq_0[0].request_value(request),
                        &right,
                        &old(self)->Eq_0[1].request_value(request),
                    );
                }
                match (left, right) {
                    (None, None) => None,
                    (None, Some(rv)) => {
                        eq[1] = SelectorOrValue::Value(rv);
                        None
                    },
                    (Some(lv), None) => {
                        eq[0] = SelectorOrValue::Value(lv);
                        None
                    },
                    (Some(lv), Some(rv)) => {
                        if value_eq(&lv, &rv) {
                            *self = Condition::True;
                            Some(true)
                        } else {
                            Some(false)
                        }
                    },
                }
            },
            Condition::All(all) => {
                if all.len() == 0 {
                    return Some(true);
                }
                let ghost all0 = all@;
                let mut response: Option<bool> = Some(true);
                let mut i: usize = 0;
                while i < all.len()
                    invariant
                        all@.len() == all0.len(),
                        i <= all0.len(),
                        forall|j: int| i <= j < all0.len() ==> all@[j] == all0[j],
                        forall|j: int|
                            0 <= j < i ==> request_rewrite(
                                &all0[j],
                                &(#[trigger] all@[j]),
                                request,
                            ),
                        response == (if exists|j: int|
                            0 <= j < i && (#[trigger] all0[j]).request_decided(request) is None {
                            None::<bool>
                        } else {
                            Some(
                                forall|j: int|
                                    0 <= j < i ==> (#[trigger] all0[j]).request_decided(request)
                                        == Some(true),
                            )
                        }),
                    decreases all0.len() - i,
                {
                    proof {
                        let ii = i as int;
                        assert(all@[ii] == all0[ii]);
                        assert(decreases_to!(*old(self) => old(self)->All_0));
                        assert(decreases_to!(old(self)->All_0 => old(self)->All_0@));
                        assert(decreases_to!(old(self)->All_0@ => all0[ii]));
                        assert(decreases_to!(*old(self) => all0[ii]));
                    }
                    let resp = all[i].evaluate_request(request);
                    response = match (response, resp) {
                        (Some(a), Some(b)) => Some(a && b),
                        _ => None,
                    };
                    i = i + 1;
                }
                response
            },
            Condition::Any(any) => {
                if any.len() == 0 {
                    return Some(true);
                }
                let ghost any0 = any@;
                let mut response: Option<bool> = Some(false);
                let mut i: usize = 0;
                while i < any.len()
                    invariant
                        any@.len() == any0.len(),
                        i <= any0.len(),
                        forall|j: int| i <= j < any0.len() ==> any@[j] == any0[j],
                        forall|j: int|
                            0 <= j < i ==> request_rewrite(
                                &any0[j],
                                &(#[trigger] any@[j]),
                                request,
                            ),
                        response == (if exists|j: int|
                            0 <= j < i && (#[trigger] any0[j]).request_decided(request) is None {
                            None::<bool>
                        } else {
                            Some(
                                exists|j: int|
                                    0 <= j < i && (#[trigger] any0[j]).request_decided(request)
                                        == Some(true),
                            )
                        }),
                    decreases any0.len() - i,
                {
                    proof {
                        let ii = i as int;
                        assert(any@[ii] == any0[ii]);
                        assert(decreases_to!(*old(self) => old(self)->Any_0));
                        assert(decreases_to!(old(self)->Any_0 => old(self)->Any_0@));
                        assert(decreases_to!(old(self)->Any_0@ => any0[ii]));
                        assert(decreases_to!(*old(self) => any0[ii]));
                    }
                    let ghost prev = response;
                    let resp = any[i].evaluate_request(request);
                    response = match (response, resp) {
                        (Some(a), Some(b)) => Some(a || b),
                        _ => None,
                    };
                    proof {
                        let ii = i as int;
                        assert(resp == any0[ii].request_decided(request));
                        if resp is None {
                            assert(any0[ii].request_decided(request) is None);
                        } else if prev is Some {
                            assert(forall|j: int|
                                0 <= j < ii + 1 ==> !((#[trigger] any0[j]).request_decided(request)
                                    is None));
                            if response == Some(true) {
                                if prev == Some(true) {
                                    let w = choose|j: int|
                                        0 <= j < ii && (#[trigger] any0[j]).request_decided(request)
                                            == Some(true);
                                    assert(0 <= w < ii + 1 && any0[w].request_decided(request)
                                        == Some(true));
                                } else {
                                    assert(any0[ii].request_decided(request) == Some(true));
                                }
                            } else {
                                assert(forall|j: int|
                                    0 <= j < ii + 1 ==> (#[trigger] any0[j]).request_decided(
                                        request,
                                    ) != Some(true));
                            }
                        }
                    }
                    i = i + 1;
                }
                response
            },
            Condition::Not(not) => {
                match not.evaluate_request(request) {
                    Some(v) => Some(!v),
                    None => None,
                }
            },
            Condition::True => Some(true),
            Condition::False => Some(false),
        }
    }

    /// Evaluates the condition against a response alone.
    #[verifier::loop_isolation(false)]
    pub fn evaluate_response(&self, response: &T::Response) -> (r: bool)
        ensures
            r == self.eval_response(response),
        decreases self,
    {
        match self {
            Condition::Eq(eq) => {
                let left = eq[0].on_response(response);
                let right = eq[1].on_response(response);
                let r = opt_value_eq(&left, &right);
                proof {
                    lemma_opt_same_as_congruence(
                        &left,
                        &eq[0].response_value(response),
                        &right,
                        &eq[1].response_value(response),
                    );
                }
                r
            },
            Condition::All(all) => {
                let mut i: usize = 0;
                while i < all.len()
                    invariant
                        i <= all@.len(),
                        forall|j: int| 0 <= j < i ==> (#[trigger] all@[j]).eval_response(response),
                    decreases all@.len() - i,
                {
                    if !all[i].evaluate_response(response) {
                        return false;
                    }
                    i = i + 1;
                }
                true
            },
            Condition::Any(any) => {
                let mut i: usize = 0;
                while i < any.len()
                    invariant
                        i <= any@.len(),
                        forall|j: int| 0 <= j < i ==> !(#[trigger] any@[j]).eval_response(response),
                    decreases any@.len() - i,
                {
                    if any[i].evaluate_response(response) {
                        return true;
                    }
                    i = i + 1;
                }
                false
            },
            Condition::Not(not) => !not.evaluate_response(response),
            Condition::True => true,
            Condition::False => false,
        }
    }
}

impl<T: Selector> Condition<T> {
    /// Whether the condition holds no empty disjunction. An empty `Any` is
    /// the one condition whose request-only value (vacuously true, by the
    /// partial evaluator's convention) differs from its full value (a
    /// disjunction with no true branch).
    pub open spec fn no_empty_any(&self) -> bool
        decreases self,
    {
        match self {
            Condition::Eq(eq) => true,
            Condition::All(all) => forall|i: int|
                0 <= i < all@.len() ==> (#[trigger] all@[i]).no_empty_any(),
            Condition::Any(any) => any@.len() > 0 && forall|i: int|
                0 <= i < any@.len() ==> (#[trigger] any@[i]).no_empty_any(),
            Condition::Not(not) => not.no_empty_any(),
            Condition::True => true,
            Condition::False => true,
        }
    }
}

/// Partial evaluation is sound: when the request alone decides a
/// condition's value, evaluating the condition in full against any
/// response yields that same value — for every condition free of empty
/// disjunctions, the one construct whose request-only value follows the
/// evaluator's convention instead.
pub proof fn lemma_request_decided_sound<T: Selector>(
    c: &Condition<T>,
    request: &T::Request,
    response: &T::Response,
)
    requires
        c.no_empty_any(),
        c.request_decided(request) is Some,
    ensures
        c.eval(request, response) == c.request_decided(request)->0,
    decreases c,
{
    match c {
        Condition::Eq(eq) => {},
        Condition::All(all) => {
            assert forall|i: int| 0 <= i < all@.len() implies ((#[trigger] all@[i]).request_decided(
                request,
            ) is Some && all@[i].eval(request, response) == all@[i].request_decided(request)->0) by {
                lemma_request_decided_sound(&all@[i], request, response);
            }
            assert(c.eval(request, response) == c.request_decided(request)->0) by {
                if c.request_decided(request)->0 {
                    assert(forall|i: int|
                        0 <= i < all@.len() ==> (#[trigger] all@[i]).request_decided(request)
                            == Some(true));
                } else {
                    let w = choose|i: int|
                        0 <= i < all@.len() && (#[trigger] all@[i]).request_decided(request)
                            != Some(true);
                    assert(!all@[w].eval(request, response));
                }
            }
        },
        Condition::Any(any) => {
            assert forall|i: int| 0 <= i < any@.len() implies ((#[trigger] any@[i]).request_decided(
                request,
            ) is Some && any@[i].eval(request, response) == any@[i].request_decided(request)->0) by {
                lemma_request_decided_sound(&any@[i], request, response);
            }
            assert(c.eval(request, response) == c.request_decided(request)->0) by {
                if c.request_decided(request)->0 {
                    let w = choose|i: int|
                        0 <= i < any@.len() && (#[trigger] any@[i]).request_decided(request)
                            == Some(true);
                    assert(any@[w].eval(request, response));
                } else {
                    assert(forall|i: int|
                        0 <= i < any@.len() ==> !(#[trigger] any@[i]).eval(request, response));
                }
            }
        },
        Condition::Not(not) => {
            lemma_request_decided_sound(&**not, request, response);
        },
        Condition::True => {},
        Condition::False => {},
    }
}

/// How a condition may be rewritten by partial evaluation against a
/// request: each comparison side the request resolved is replaced by the
/// constant it resolved to; a comparison the request fully decided in the
/// affirmative collapses to `True`; everything else is unchanged.
pub open spec fn request_rewrite<T: Selector>(
    pre: &Condition<T>,
    post: &Condition<T>,
    request: &T::Request,
) -> bool
    decreases pre,
{
    match pre {
        Condition::Eq(eq) => {
            let l = eq[0].request_value(request);
            let r = eq[1].request_value(request);
            if l is None && r is None {
                post == pre
            } else if l is None {
                match post {
                    Condition::Eq(peq) => peq[0] == eq[0] && match peq[1] {
                        SelectorOrValue::Value(v) => opt_same_as(&Some(v), &r),
                        _ => false,
                    },
                    _ => false,
                }
            } else if r is None {
                match post {
                    Condition::Eq(peq) => peq[1] == eq[1] && match peq[0] {
                        SelectorOrValue::Value(v) => opt_same_as(&Some(v), &l),
                        _ => false,
                    },
                    _ => false,
                }
            } else {
                if opt_same_as(&l, &r) {
                    *post is True
                } else {
                    post == pre
                }
            }
        },
        Condition::All(all) => match post {
            Condition::All(pall) => pall@.len() == all@.len() && forall|i: int|
                0 <= i < all@.len() ==> request_rewrite(
                    &all@[i],
                    &(#[trigger] pall@[i]),
                    request,
                ),
            _ => false,
        },
        Condition::Any(any) => match post {
            Condition::Any(pany) => pany@.len() == any@.len() && forall|i: int|
                0 <= i < any@.len() ==> request_rewrite(
                    &any@[i],
                    &(#[trigger] pany@[i]),
                    request,
                ),
            _ => false,
        },
        Condition::Not(not) => match post {
            Condition::Not(pnot) => request_rewrite(&**not, &**pnot, request),
            _ => false,
        },
        Condition::True => *post is True,
        Condition::False => *post is False,
    }
}

} // verus!
