use vstd::prelude::*;
use crate::ratelimit::elapsed;

verus! {

/// How grave a log record is.
#[derive(Clone, Copy, Debug, PartialEq, Eq, Structural)]
pub enum Severity {
    Info,
    Error,
}

/// One log line about a call. `status` is absent on a call that failed,
/// where no status exists.
#[derive(Debug)]
pub struct LogRecord {
    pub severity: Severity,
    pub method: String,
    pub path: String,
    pub status: Option<u16>,
    pub duration_ms: u64,
}

/// Builds services that log each call they pass on.
#[derive(Clone, Copy, Debug)]
pub struct LoggingLayer;

/// A service whose calls are logged on entry and on completion.
#[derive(Debug)]
pub struct LoggingService<S> {
    pub inner: S,
}

/// The pending result of a logged call, with what the log needs when it settles.
/// Times are in milliseconds.
#[derive(Debug)]
pub struct ResponseFuture<F> {
    pub future: F,
    start: u64,
    path: String,
    method: String,
}

impl LoggingLayer {
    /// Wraps a service so that its calls are logged.
    pub fn layer<S>(&self, service: S) -> (r: LoggingService<S>)
        ensures
            r.inner == service,
    {
        LoggingService { inner: service }
    }
}

impl<S> LoggingService<S> {
    /// The record written when a call comes in, and the pending result that
    /// carries the call's method, path and start time to its completion.
    pub fn begin<F>(&self, future: F, method: String, path: String, now: u64) -> (r: (ResponseFuture<F>, LogRecord))
        ensures
            r.0.inner_future() == future,
            r.0.start() == now,
            r.0.method() == method@,
            r.0.path() == path@,
            r.1.severity == Severity::Info,
            r.1.method@ == method@,
            r.1.path@ == path@,
            r.1.status is None,
            r.1.duration_ms == 0,
    {
        let rec = LogRecord { severity: Severity::Info, method: method.clone(), path: path.clone(), status: None, duration_ms: 0 };
        (ResponseFuture { future, start: now, path, method }, rec)
    }
}

impl<F> ResponseFuture<F> {
    pub closed spec fn inner_future(&self) -> F {
        self.future
    }

    pub closed spec fn start(&self) -> u64 {
        self.start
    }

    pub closed spec fn method(&self) -> Seq<char> {
        self.method@
    }

    pub closed spec fn path(&self) -> Seq<char> {
        self.path@
    }

    /// The record of a settled call: at informational severity with the status
    /// when it succeeded, at error severity without one when it failed; with the
    /// time since the call came in.
    pub fn record(&self, status: Option<u16>, now: u64) -> (r: LogRecord)
        ensures
            r.severity == (if status is Some { Severity::Info } else { Severity::Error }),
            r.status == status,
            r.duration_ms as int == elapsed(self.start(), now),
            r.method@ == self.method(),
            r.path@ == self.path(),
    {
        let duration_ms: u64 = if now >= self.start { now - self.start } else { 0 };
        let severity = match status {
            Some(_) => Severity::Info,
            None => Severity::Error,
        };
        LogRecord { severity, method: self.method.clone(), path: self.path.clone(), status, duration_ms }
    }

    /// Hands on the result of the call unchanged, with its record; `status` is
    /// the status of a successful response.
    pub fn settle<R, E>(&self, result: Result<R, E>, status: u16, now: u64) -> (r: (Result<R, E>, LogRecord))
        ensures
            r.0 == result,
            r.1.status == (if result is Ok { Some(status) } else { None::<u16> }),
            r.1.severity == (if result is Ok { Severity::Info } else { Severity::Error }),
            r.1.duration_ms as int == elapsed(self.start(), now),
            r.1.method@ == self.method(),
            r.1.path@ == self.path(),
    {
        let code = match &result {
            Ok(_) => Some(status),
            Err(_) => None,
        };
        let rec = self.record(code, now);
        (result, rec)
    }
}

} // verus!
