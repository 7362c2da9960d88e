//! Results recorded by the atlas test runners.
use vstd::prelude::*;

verus! {

/// The outcome of one test.
pub struct TestResult {
    pub test_name: String,
    pub passed: bool,
    pub duration_ms: u64,
    pub error_message: Option<String>,
}

impl TestResult {
    /// A result with the given fields.
    pub fn new(test_name: String, passed: bool, duration_ms: u64, error_message: Option<String>) -> (r: Self)
        ensures
            r.test_name == test_name,
            r.passed == passed,
            r.duration_ms == duration_ms,
            r.error_message == error_message,
    {
        TestResult { test_name, passed, duration_ms, error_message }
    }
}

/// The outcome of one coverage or performance test.
pub struct ZkperfTestResult {
    pub test_name: String,
    pub passed: bool,
    pub duration_ms: u64,
    pub coverage_data: Option<String>,
    pub perf_data: Option<String>,
    pub error_message: Option<String>,
}

impl ZkperfTestResult {
    /// A result with the given fields.
    pub fn new(
        test_name: String,
        passed: bool,
        duration_ms: u64,
        coverage_data: Option<String>,
        perf_data: Option<String>,
        error_message: Option<String>,
    ) -> (r: Self)
        ensures
            r.test_name == test_name,
            r.passed == passed,
            r.duration_ms == duration_ms,
            r.coverage_data == coverage_data,
            r.perf_data == perf_data,
            r.error_message == error_message,
    {
        ZkperfTestResult { test_name, passed, duration_ms, coverage_data, perf_data, error_message }
    }
}

/// The outcome of one integration test.
pub struct ZkperfIntegrationResult {
    pub test_name: String,
    pub passed: bool,
    pub duration_ms: u64,
    pub output_files: Vec<String>,
    pub error_message: Option<String>,
    pub performance_metrics: Option<String>,
}

impl ZkperfIntegrationResult {
    /// A result with the given fields.
    pub fn new(
        test_name: String,
        passed: bool,
        duration_ms: u64,
        output_files: Vec<String>,
        error_message: Option<String>,
        performance_metrics: Option<String>,
    ) -> (r: Self)
        ensures
            r.test_name == test_name,
            r.passed == passed,
            r.duration_ms == duration_ms,
            r.output_files == output_files,
            r.error_message == error_message,
            r.performance_metrics == performance_metrics,
    {
        ZkperfIntegrationResult {
            test_name,
            passed,
            duration_ms,
            output_files,
            error_message,
            performance_metrics,
        }
    }
}

} // verus!
