//! The Python kernel: its modes, its launch settings, the environment it runs
//! in and how talking to it fails.

use vstd::prelude::*;

use crate::number::Real;
use crate::supervisor::Event;

verus! {

/// How the kernel runs.
#[derive(Debug, Clone, Copy, PartialEq, Eq, Structural)]
pub enum KernelMode {
    /// Protocol demo without training.
    Mock,
    /// kohya sd-scripts.
    SdScripts,
    /// ai-toolkit.
    Aitk,
    /// Image tagging.
    Tagger,
}

/// Name of a mode (the kernel's `TIANDI_KERNEL_MODE`).
pub open spec fn kernel_mode_name(m: KernelMode) -> Seq<char> {
    match m {
        KernelMode::Mock => "mock"@,
        KernelMode::SdScripts => "sdscripts"@,
        KernelMode::Aitk => "aitk"@,
        KernelMode::Tagger => "tagger"@,
    }
}

impl KernelMode {
    pub fn as_str(&self) -> (r: &'static str)
        ensures
            r@ == kernel_mode_name(*self),
    {
        match self {
            KernelMode::Mock => "mock",
            KernelMode::SdScripts => "sdscripts",
            KernelMode::Aitk => "aitk",
            KernelMode::Tagger => "tagger",
        }
    }
}

/// Everything needed to start the kernel process.
#[derive(Debug, Clone)]
pub struct KernelLaunch {
    pub python: String,
    pub wrapper: String,
    pub config_path: String,
    pub mode: KernelMode,
    pub env: Vec<(String, String)>,
    pub cwd: String,
}

/// The ai-toolkit kernel (its own virtual environment).
#[derive(Debug, Clone)]
pub struct AitkEnv {
    pub python: String,
    pub repo: String,
    /// Krea 2 assets, once prepared.
    pub krea2: Option<Krea2Assets>,
}

/// Local Krea 2 training assets.
#[derive(Debug, Clone)]
pub struct Krea2Assets {
    pub mmdit: String,
    pub text_encoder: String,
    pub vae_root: String,
}

/// The kernel environment: the Python to run, the sd-scripts checkout, the
/// ai-toolkit kernel, and a hint when nothing usable was found.
#[derive(Debug, Clone)]
pub struct KernelEnv {
    pub python: Option<String>,
    pub sd_scripts: Option<String>,
    pub aitk: Option<AitkEnv>,
    pub message: Option<String>,
}

/// The hint shown when no Python was found.
pub open spec fn no_python_hint() -> Seq<char> {
    "未检测到 Python。请安装 Python 3.12+（https://www.python.org/downloads/），或运行 `tiandi doctor` 查看指引"@
}

/// What installing the kernel wrote to the workspace's manifest: its Python,
/// the sd-scripts checkout and the ai-toolkit kernel.
pub type KernelManifest = (String, Option<String>, Option<AitkEnv>);

impl KernelEnv {
    /// The environment from what was found: the workspace's kernel manifest
    /// wins; otherwise a Python on the system, with no kernel; otherwise a
    /// hint.
    pub fn detect_for(manifest: Option<KernelManifest>, system_python: Option<String>) -> (e: Self)
        ensures
            match manifest {
                Some((py, sd, ai)) => e.python == Some(py) && e.sd_scripts == sd && e.aitk == ai
                    && e.message is None,
                None => match system_python {
                    Some(py) => e.python == Some(py) && e.sd_scripts is None && e.aitk is None
                        && e.message is None,
                    None => e.python is None && e.sd_scripts is None && e.aitk is None && (
                    e.message matches Some(m) && m@ == no_python_hint()),
                },
            },
    {
        match manifest {
            Some((python, sd_scripts, aitk)) => KernelEnv { python: Some(python), sd_scripts, aitk, message: None },
            None => match system_python {
                Some(p) => KernelEnv { python: Some(p), sd_scripts: None, aitk: None, message: None },
                None => KernelEnv {
                    python: None,
                    sd_scripts: None,
                    aitk: None,
                    message: Some(
                        String::from_str(
                            "未检测到 Python。请安装 Python 3.12+（https://www.python.org/downloads/），或运行 `tiandi doctor` 查看指引",
                        ),
                    ),
                },
            },
        }
    }

    /// The kernel can run: there is a Python.
    pub fn ready(&self) -> (r: bool)
        ensures
            r == self.python is Some,
    {
        self.python.is_some()
    }
}

/// Errors of the kernel process.
#[derive(Debug, Clone)]
pub enum KernelError {
    /// The process could not be started (the system's message).
    Spawn(String),
    StdoutClosed,
    StderrClosed,
    /// The kernel has exited.
    StdinClosed,
    /// Sending a control command failed (the system's message).
    Io(String),
    /// The kernel did not exit within 5 s of a cancel and was killed.
    CancelTimeout,
}

/// Message of a kernel error.
pub open spec fn kernel_error_text(e: KernelError) -> Seq<char> {
    match e {
        KernelError::Spawn(s) => "内核进程启动失败: "@ + s@,
        KernelError::StdoutClosed => "stdout 通道不可用"@,
        KernelError::StderrClosed => "stderr 通道不可用"@,
        KernelError::StdinClosed => "stdin 通道不可用（内核已退出）"@,
        KernelError::Io(s) => "控制命令发送失败: "@ + s@,
        KernelError::CancelTimeout => "取消超时（内核未在 5s 内退出，已强杀）"@,
    }
}

impl KernelError {
    /// The error's message.
    pub fn message(&self) -> (r: String)
        ensures
            r@ == kernel_error_text(*self),
    {
        match self {
            KernelError::Spawn(s) => {
                let mut r = String::from_str("内核进程启动失败: ");
                r.append(s.as_str());
                r
            },
            KernelError::StdoutClosed => String::from_str("stdout 通道不可用"),
            KernelError::StderrClosed => String::from_str("stderr 通道不可用"),
            KernelError::StdinClosed => String::from_str("stdin 通道不可用（内核已退出）"),
            KernelError::Io(s) => {
                let mut r = String::from_str("控制命令发送失败: ");
                r.append(s.as_str());
                r
            },
            KernelError::CancelTimeout => String::from_str("取消超时（内核未在 5s 内退出，已强杀）"),
        }
    }
}

/// One line of the kernel's stdout protocol (a JSON object), its fields as
/// plain values. A field is `None` when the line lacks it or holds another
/// JSON type there. `kind` is the `type` field; `epoch` is the value as the
/// kernel's binary32 epoch counter carries it.
#[derive(Debug, Clone)]
pub struct KernelLine {
    pub kind: Option<String>,
    pub backend: Option<String>,
    pub version: Option<String>,
    pub step: Option<u64>,
    pub eta_s: Option<u64>,
    pub code: Option<u64>,
    pub epoch: Option<Real>,
    pub loss: Option<Real>,
    pub lr: Option<Real>,
    pub level: Option<String>,
    pub msg: Option<String>,
    pub path: Option<String>,
    pub tail: Option<String>,
}

/// Two values with the same bits and the same rendering.
pub open spec fn same_real(a: Real, b: Real) -> bool {
    a.bits == b.bits && a.text@ == b.text@
}

/// `r` is the value `x`, or zero (`0`) when it is absent.
pub open spec fn real_or_zero(x: Option<Real>, r: Real) -> bool {
    match x {
        Some(v) => same_real(v, r),
        None => r.bits == 0 && r.text@ == "0"@,
    }
}

/// The same optional value.
pub open spec fn same_opt_real(x: Option<Real>, y: Option<Real>) -> bool {
    match (x, y) {
        (Some(a), Some(b)) => same_real(a, b),
        (None, None) => true,
        _ => false,
    }
}

/// A text field, or `d` when it is absent.
pub open spec fn text_or(x: Option<String>, d: Seq<char>) -> Seq<char> {
    match x {
        Some(s) => s@,
        None => d,
    }
}

/// A number field, or `d` when it is absent.
pub open spec fn num_or(x: Option<u64>, d: u64) -> u64 {
    match x {
        Some(v) => v,
        None => d,
    }
}

/// The event a kernel line means for run `run_id`: `hello` needs `backend`
/// and `version`; `progress` and `metric` default their step to 0 (and
/// progress its numbers to 0); `log` defaults its level to `info`; `done`
/// defaults its code to 0, `fail` to 1 (codes are kept to 32 bits); a line
/// without a type, or of another type, means no event.
pub open spec fn kernel_event(line: KernelLine, run_id: Seq<char>, e: Option<Event>) -> bool {
    match line.kind {
        None => e is None,
        Some(k) => if k@ == "hello"@ {
            if line.backend is Some && line.version is Some {
                &&& e matches Some(Event::Hello { run_id: r, backend, version })
                &&& r@ == run_id
                &&& backend@ == line.backend->0@
                &&& version@ == line.version->0@
            } else {
                e is None
            }
        } else if k@ == "progress"@ {
            &&& e matches Some(Event::Progress { run_id: r, step, epoch, loss, lr, eta_s })
            &&& r@ == run_id
            &&& step == num_or(line.step, 0)
            &&& real_or_zero(line.epoch, epoch)
            &&& real_or_zero(line.loss, loss)
            &&& real_or_zero(line.lr, lr)
            &&& eta_s == line.eta_s
        } else if k@ == "metric"@ {
            &&& e matches Some(Event::Metric { run_id: r, step, loss, lr })
            &&& r@ == run_id
            &&& step == num_or(line.step, 0)
            &&& same_opt_real(line.loss, loss)
            &&& same_opt_real(line.lr, lr)
        } else if k@ == "log"@ {
            &&& e matches Some(Event::Log { run_id: r, level, msg })
            &&& r@ == run_id
            &&& level@ == text_or(line.level, "info"@)
            &&& msg@ == text_or(line.msg, ""@)
        } else if k@ == "sample"@ {
            &&& e matches Some(Event::Sample { run_id: r, path })
            &&& r@ == run_id
            &&& path@ == text_or(line.path, ""@)
        } else if k@ == "done"@ {
            &&& e matches Some(Event::Done { run_id: r, code })
            &&& r@ == run_id
            &&& code == num_or(line.code, 0) as u32
        } else if k@ == "fail"@ {
            &&& e matches Some(Event::Fail { run_id: r, code, tail })
            &&& r@ == run_id
            &&& code == num_or(line.code, 1) as u32
            &&& tail@ == text_or(line.tail, ""@)
        } else {
            e is None
        },
    }
}

fn copy_text(x: &Option<String>, d: &str) -> (r: String)
    ensures
        r@ == text_or(*x, d@),
{
    match x {
        Some(s) => String::from_str(s.as_str()),
        None => String::from_str(d),
    }
}

fn copy_real(x: &Real) -> (r: Real)
    ensures
        same_real(*x, r),
{
    Real { bits: x.bits, text: String::from_str(x.text.as_str()) }
}

fn real_or_zero_of(x: &Option<Real>) -> (r: Real)
    ensures
        real_or_zero(*x, r),
{
    match x {
        Some(v) => copy_real(v),
        None => Real { bits: 0, text: String::from_str("0") },
    }
}

fn copy_opt_real(x: &Option<Real>) -> (r: Option<Real>)
    ensures
        same_opt_real(*x, r),
{
    match x {
        Some(v) => Some(copy_real(v)),
        None => None,
    }
}

fn num_or_exec(x: Option<u64>, d: u64) -> (r: u64)
    ensures
        r == num_or(x, d),
{
    match x {
        Some(v) => v,
        None => d,
    }
}

/// The event of one kernel line, for run `run_id` (the kernel does not name
/// its run; the caller does).
pub fn event_from_kernel(line: &KernelLine, run_id: &str) -> (e: Option<Event>)
    ensures
        kernel_event(*line, run_id@, e),
{
    let kind = match &line.kind {
        Some(k) => k,
        None => return None,
    };
    let rid = String::from_str(run_id);
    if *kind == String::from_str("hello") {
        match (&line.backend, &line.version) {
            (Some(b), Some(v)) => Some(
                Event::Hello { run_id: rid, backend: String::from_str(b.as_str()), version: String::from_str(v.as_str()) },
            ),
            _ => None,
        }
    } else if *kind == String::from_str("progress") {
        Some(
            Event::Progress {
                run_id: rid,
                step: num_or_exec(line.step, 0),
                epoch: real_or_zero_of(&line.epoch),
                loss: real_or_zero_of(&line.loss),
                lr: real_or_zero_of(&line.lr),
                eta_s: line.eta_s,
            },
        )
    } else if *kind == String::from_str("metric") {
        Some(
            Event::Metric {
                run_id: rid,
                step: num_or_exec(line.step, 0),
                loss: copy_opt_real(&line.loss),
                lr: copy_opt_real(&line.lr),
            },
        )
    } else if *kind == String::from_str("log") {
        Some(Event::Log { run_id: rid, level: copy_text(&line.level, "info"), msg: copy_text(&line.msg, "") })
    } else if *kind == String::from_str("sample") {
        Some(Event::Sample { run_id: rid, path: copy_text(&line.path, "") })
    } else if *kind == String::from_str("done") {
        Some(Event::Done { run_id: rid, code: num_or_exec(line.code, 0) as u32 })
    } else if *kind == String::from_str("fail") {
        Some(
            Event::Fail {
                run_id: rid,
                code: num_or_exec(line.code, 1) as u32,
                tail: copy_text(&line.tail, ""),
            },
        )
    } else {
        None
    }
}

/// A line with only a type.
pub open spec fn bare_line(l: KernelLine) -> bool {
    &&& l.backend is None && l.version is None && l.step is None && l.eta_s is None
    &&& l.epoch is None && l.loss is None && l.lr is None && l.path is None
}

fn no_text() -> (r: Option<String>)
    ensures
        r is None,
{
    None
}

/// A stdout line that is not JSON (stray output of torch, accelerate and the
/// like): an `info` log line with its text. An empty line means nothing.
pub fn plain_output_line(text: &str) -> (l: Option<KernelLine>)
    ensures
        text@.len() == 0 <==> l is None,
        l matches Some(k) ==> {
            &&& bare_line(k)
            &&& k.kind matches Some(t) && t@ == "log"@
            &&& k.level matches Some(v) && v@ == "info"@
            &&& k.msg matches Some(m) && m@ == text@
            &&& k.code is None && k.tail is None
        },
{
    if text.unicode_len() == 0 {
        return None;
    }
    Some(
        KernelLine {
            kind: Some(String::from_str("log")),
            backend: no_text(),
            version: no_text(),
            step: None,
            eta_s: None,
            code: None,
            epoch: None,
            loss: None,
            lr: None,
            level: Some(String::from_str("info")),
            msg: Some(String::from_str(text)),
            path: no_text(),
            tail: no_text(),
        },
    )
}

/// The failure reported when the kernel exits without `done` or `fail`.
pub open spec fn unexpected_exit_tail() -> Seq<char> {
    "内核进程意外退出（未收到 done/fail 事件）"@
}

/// The line standing for a kernel that exited without `done` or `fail`: a
/// `fail` with code 1 and the explanation as its tail.
pub fn unexpected_exit_line() -> (l: KernelLine)
    ensures
        bare_line(l),
        l.kind matches Some(t) && t@ == "fail"@,
        l.code == Some(1u64),
        l.tail matches Some(t) && t@ == unexpected_exit_tail(),
        l.level is None && l.msg is None,
{
    KernelLine {
        kind: Some(String::from_str("fail")),
        backend: no_text(),
        version: no_text(),
        step: None,
        eta_s: None,
        code: Some(1),
        epoch: None,
        loss: None,
        lr: None,
        level: no_text(),
        msg: no_text(),
        path: no_text(),
        tail: Some(String::from_str("内核进程意外退出（未收到 done/fail 事件）")),
    }
}

/// Whether a line ends its run: `done` or `fail`.
pub fn line_ends_run(line: &KernelLine) -> (r: bool)
    ensures
        r <==> (line.kind matches Some(t) && (t@ == "done"@ || t@ == "fail"@)),
{
    match &line.kind {
        Some(t) => *t == String::from_str("done") || *t == String::from_str("fail"),
        None => false,
    }
}

} // verus!
