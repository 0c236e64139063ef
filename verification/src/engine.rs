//! Training engine values: what a backend reports of itself and how it fails.

use vstd::prelude::*;

verus! {

/// What a training backend declares (the kernel's `hello` negotiation).
#[derive(Debug, Clone)]
pub struct EngineInfo {
    pub backend: String,
    pub version: String,
    pub capabilities: Vec<String>,
}

/// Errors of a training engine.
#[derive(Debug, Clone)]
pub enum EngineError {
    /// No such run.
    UnknownRun(String),
    /// The engine cannot run yet (no Python, kernel not installed).
    NotReady(String),
    /// The kernel could not be started.
    Spawn(String),
    /// The kernel failed while running.
    Runtime(String),
    /// The kernel does not support the operation.
    Unsupported(String),
}

/// Message of an engine error.
pub open spec fn engine_error_text(e: EngineError) -> Seq<char> {
    match e {
        EngineError::UnknownRun(s) => "任务不存在: "@ + s@,
        EngineError::NotReady(s) => "引擎未就绪: "@ + s@,
        EngineError::Spawn(s) => "内核启动失败: "@ + s@,
        EngineError::Runtime(s) => "内核运行错误: "@ + s@,
        EngineError::Unsupported(s) => "内核不支持该操作: "@ + s@,
    }
}

impl EngineError {
    /// The error's message.
    pub fn message(&self) -> (r: String)
        ensures
            r@ == engine_error_text(*self),
    {
        let (head, s) = match self {
            EngineError::UnknownRun(s) => ("任务不存在: ", s),
            EngineError::NotReady(s) => ("引擎未就绪: ", s),
            EngineError::Spawn(s) => ("内核启动失败: ", s),
            EngineError::Runtime(s) => ("内核运行错误: ", s),
            EngineError::Unsupported(s) => ("内核不支持该操作: ", s),
        };
        let mut r = String::from_str(head);
        r.append(s.as_str());
        r
    }
}

} // verus!
