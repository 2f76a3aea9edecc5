//! Uniform node-connectivity test results shared across the node modules.

use vstd::prelude::*;

verus! {

/// How a node test ended.
#[derive(Debug, Clone, Copy, PartialEq, Eq, Structural)]
pub enum TestStatus {
    Success,
    Failure,
    Timeout,
}

impl TestStatus {
    /// Whether the test succeeded.
    pub fn is_success(&self) -> (r: bool)
        ensures
            r == (*self == TestStatus::Success),
    {
        matches!(self, TestStatus::Success)
    }

    /// Whether the test did not succeed.
    pub fn is_failure(&self) -> (r: bool)
        ensures
            r == (*self != TestStatus::Success),
    {
        !self.is_success()
    }

    /// The status as fixed text.
    pub fn as_str(&self) -> (r: &'static str)
        ensures
            *self == TestStatus::Success ==> r@ == "success"@,
            *self == TestStatus::Failure ==> r@ == "failure"@,
            *self == TestStatus::Timeout ==> r@ == "timeout"@,
    {
        match self {
            TestStatus::Success => "success",
            TestStatus::Failure => "failure",
            TestStatus::Timeout => "timeout",
        }
    }
}

/// One node's test result: identity, outcome, timing and messages.
#[derive(Debug)]
pub struct NodeTestResult {
    pub node_id: Option<String>,
    pub node_name: Option<String>,
    pub url: String,
    pub status: TestStatus,
    pub response_time_ms: Option<u64>,
    pub message: String,
    pub error_details: Option<String>,
}

impl NodeTestResult {
    /// A successful result with its response time.
    pub fn success(url: String, response_time: u64) -> (r: Self)
        ensures
            r.url == url,
            r.status == TestStatus::Success,
            r.response_time_ms == Some(response_time),
            r.message@ == "连接成功"@,
            r.error_details is None,
            r.node_id is None,
            r.node_name is None,
    {
        NodeTestResult {
            node_id: None,
            node_name: None,
            url,
            status: TestStatus::Success,
            response_time_ms: Some(response_time),
            message: "连接成功".to_owned(),
            error_details: None,
        }
    }

    /// A successful result with its own message.
    pub fn success_with_message(url: String, response_time: u64, message: String) -> (r: Self)
        ensures
            r.url == url,
            r.status == TestStatus::Success,
            r.response_time_ms == Some(response_time),
            r.message == message,
            r.error_details is None,
    {
        NodeTestResult {
            node_id: None,
            node_name: None,
            url,
            status: TestStatus::Success,
            response_time_ms: Some(response_time),
            message,
            error_details: None,
        }
    }

    /// A failed result with its error text.
    pub fn failure(url: String, error: String) -> (r: Self)
        ensures
            r.url == url,
            r.status == TestStatus::Failure,
            r.response_time_ms is None,
            r.message@ == "连接失败"@,
            r.error_details == Some(error),
    {
        NodeTestResult {
            node_id: None,
            node_name: None,
            url,
            status: TestStatus::Failure,
            response_time_ms: None,
            message: "连接失败".to_owned(),
            error_details: Some(error),
        }
    }

    /// A failed result that still measured a response time.
    pub fn failure_with_time(url: String, response_time: u64, error: String) -> (r: Self)
        ensures
            r.url == url,
            r.status == TestStatus::Failure,
            r.response_time_ms == Some(response_time),
            r.message@ == "连接失败"@,
            r.error_details == Some(error),
    {
        NodeTestResult {
            node_id: None,
            node_name: None,
            url,
            status: TestStatus::Failure,
            response_time_ms: Some(response_time),
            message: "连接失败".to_owned(),
            error_details: Some(error),
        }
    }

    /// A timed-out result, noting the timeout that was exceeded.
    pub fn timeout(url: String, timeout_ms: u64) -> (r: Self)
        ensures
            r.url == url,
            r.status == TestStatus::Timeout,
            r.response_time_ms == Some(timeout_ms),
            r.message@ == "连接超时"@,
            r.error_details matches Some(d) && d@ == "请求超过 "@ + crate::strutil::dec_rep(
                timeout_ms as nat,
            ) + " 毫秒未响应"@,
    {
        let mut details = "请求超过 ".to_owned();
        let num = crate::strutil::u64_to_string(timeout_ms);
        crate::strutil::push_str(&mut details, num.as_str());
        crate::strutil::push_str(&mut details, " 毫秒未响应");
        NodeTestResult {
            node_id: None,
            node_name: None,
            url,
            status: TestStatus::Timeout,
            response_time_ms: Some(timeout_ms),
            message: "连接超时".to_owned(),
            error_details: Some(details),
        }
    }

    /// The same result with a node id.
    pub fn with_node_id(self, node_id: String) -> (r: Self)
        ensures
            r == (NodeTestResult { node_id: Some(node_id), ..self }),
    {
        NodeTestResult { node_id: Some(node_id), ..self }
    }

    /// The same result with a node name.
    pub fn with_node_name(self, node_name: String) -> (r: Self)
        ensures
            r == (NodeTestResult { node_name: Some(node_name), ..self }),
    {
        NodeTestResult { node_name: Some(node_name), ..self }
    }

    /// Whether the test succeeded.
    pub fn is_success(&self) -> (r: bool)
        ensures
            r == (self.status == TestStatus::Success),
    {
        self.status.is_success()
    }

    /// Whether the test did not succeed.
    pub fn is_failure(&self) -> (r: bool)
        ensures
            r == (self.status != TestStatus::Success),
    {
        self.status.is_failure()
    }

    /// The response time, if one was measured.
    pub fn response_time(&self) -> (r: Option<u64>)
        ensures
            r == self.response_time_ms,
    {
        match &self.response_time_ms {
            None => None,
            Some(t) => Some(*t),
        }
    }

    /// The error details, if any.
    pub fn error(&self) -> (r: Option<&str>)
        ensures
            match r {
                Some(d) => self.error_details matches Some(e) && d@ == e@,
                None => self.error_details is None,
            },
    {
        match &self.error_details {
            None => None,
            Some(d) => Some(d.as_str()),
        }
    }
}

} // verus!
