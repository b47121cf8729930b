//! The result collector: one connection's per-receive outcomes,
//! classified and accumulated in script order.
//!
//! The collector's obligation ends at supplying complete, correctly
//! classified records keyed by the suite name; rendering them into an
//! on-disk report format happens outside this library.

use vstd::prelude::*;

verus! {

/// Classification of one executed receive action.
#[derive(Clone, Copy, Debug, PartialEq, Eq, Structural)]
pub enum TestResult {
    /// The expected bytes arrived and matched.
    Success,
    /// The bytes differed, or the peer reset the connection.
    Error,
    /// The peer closed cleanly before the expected bytes arrived.
    Failure,
}

/// The mathematical content of one recorded outcome.
pub struct TestCaseView {
    /// The message name the record is about.
    pub name: Seq<char>,
    /// How long the action took, in milliseconds.
    pub duration_ms: u64,
    /// The record's classification.
    pub result: TestResult,
    /// A short error kind, empty on success.
    pub error_type: Seq<char>,
    /// A human-readable detail, empty on success.
    pub message: Seq<char>,
}

/// One recorded outcome of an executed receive action.
#[derive(Clone, Debug, PartialEq)]
pub struct TestCase {
    /// The message name the record is about.
    pub name: String,
    /// How long the action took, in milliseconds.
    pub duration_ms: u64,
    /// The record's classification.
    pub result: TestResult,
    /// A short error kind, empty on success.
    pub error_type: String,
    /// A human-readable detail, empty on success.
    pub message: String,
}

impl View for TestCase {
    type V = TestCaseView;

    open spec fn view(&self) -> TestCaseView {
        TestCaseView {
            name: self.name@,
            duration_ms: self.duration_ms,
            result: self.result,
            error_type: self.error_type@,
            message: self.message@,
        }
    }
}

/// The record of a receive that matched.
pub open spec fn success_case(name: Seq<char>, duration_ms: u64) -> TestCaseView {
    TestCaseView {
        name,
        duration_ms,
        result: TestResult::Success,
        error_type: Seq::empty(),
        message: Seq::empty(),
    }
}

/// The record of a receive that ended without the expected data.
pub open spec fn failure_case(
    name: Seq<char>,
    duration_ms: u64,
    error_type: Seq<char>,
    message: Seq<char>,
) -> TestCaseView {
    TestCaseView { name, duration_ms, result: TestResult::Failure, error_type, message }
}

/// The record of a receive that went wrong.
pub open spec fn error_case(
    name: Seq<char>,
    duration_ms: u64,
    error_type: Seq<char>,
    message: Seq<char>,
) -> TestCaseView {
    TestCaseView { name, duration_ms, result: TestResult::Error, error_type, message }
}

/// Collects a connection's outcomes under the suite name they are
/// reported by.
#[derive(Debug)]
pub struct Reporter {
    /// The suite name the report is keyed by.
    pub suite_name: String,
    /// The recorded outcomes, in execution order.
    pub test_cases: Vec<TestCase>,
}

impl Reporter {
    /// The recorded outcomes, as their mathematical content.
    pub open spec fn cases(&self) -> Seq<TestCaseView> {
        self.test_cases@.map_values(|c: TestCase| c@)
    }

    /// An empty report for one suite.
    pub fn new(suite: &str) -> (r: Reporter)
        ensures
            r.suite_name@ == suite@,
            r.cases() == Seq::<TestCaseView>::empty(),
    {
        let r = Reporter { suite_name: suite.to_owned(), test_cases: Vec::new() };
        proof {
            assert(r.cases() =~= Seq::<TestCaseView>::empty());
        }
        r
    }

    /// Records a success for one receive action.
    pub fn sucess(&mut self, name: &str, duration_ms: u64)
        ensures
            final(self).suite_name@ == old(self).suite_name@,
            final(self).cases() == old(self).cases().push(success_case(name@, duration_ms)),
    {
        let tc = TestCase {
            name: name.to_owned(),
            duration_ms,
            result: TestResult::Success,
            error_type: String::new(),
            message: String::new(),
        };
        self.test_cases.push(tc);
        proof {
            assert(self.cases() =~= old(self).cases().push(success_case(name@, duration_ms)));
        }
    }

    /// Records a failure (expected data never arrived) for one receive
    /// action.
    pub fn failure(&mut self, name: &str, duration_ms: u64, error_type: &str, message: &str)
        ensures
            final(self).suite_name@ == old(self).suite_name@,
            final(self).cases() == old(self).cases().push(
                failure_case(name@, duration_ms, error_type@, message@),
            ),
    {
        let tc = TestCase {
            name: name.to_owned(),
            duration_ms,
            result: TestResult::Failure,
            error_type: error_type.to_owned(),
            message: message.to_owned(),
        };
        self.test_cases.push(tc);
        proof {
            assert(self.cases() =~= old(self).cases().push(
                failure_case(name@, duration_ms, error_type@, message@),
            ));
        }
    }

    /// Records an error (mismatch or reset) for one receive action.
    pub fn error(&mut self, name: &str, duration_ms: u64, error_type: &str, message: &str)
        ensures
            final(self).suite_name@ == old(self).suite_name@,
            final(self).cases() == old(self).cases().push(
                error_case(name@, duration_ms, error_type@, message@),
            ),
    {
        let tc = TestCase {
            name: name.to_owned(),
            duration_ms,
            result: TestResult::Error,
            error_type: error_type.to_owned(),
            message: message.to_owned(),
        };
        self.test_cases.push(tc);
        proof {
            assert(self.cases() =~= old(self).cases().push(
                error_case(name@, duration_ms, error_type@, message@),
            ));
        }
    }
}

} // verus!
