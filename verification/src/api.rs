//! Rules of the HTTP API: server address, family names in requests, refused
//! state moves and refused recipes, and the errors they answer with.

use vstd::prelude::*;

use crate::compat::escape::{trim_text, trimmed};
use crate::family::ModelFamily;
use crate::recipe::file::family_named;
use crate::recipe::validate::{IssueLevel, RecipeIssue};
use crate::state::{can_step, state_label, state_name, terminal, RunState};
use crate::text::{decimal, push_decimal};

verus! {

/// Error answers of the API (HTTP 404, 409, 400, 500).
#[derive(Debug, Clone)]
pub enum ApiError {
    NotFound(String),
    Conflict(String),
    BadRequest(String),
    Internal(String),
}

/// The hint for an unknown family name.
pub open spec fn unknown_family_text(s: Seq<char>) -> Seq<char> {
    "未知模型族："@ + s + "（可选 sdxl1 / dit_anima / dit_krea2）"@
}

/// The family a request names.
pub fn parse_family(s: &str) -> (r: Result<ModelFamily, ApiError>)
    ensures
        match r {
            Ok(f) => family_named(s@) == Some(f),
            Err(e) => family_named(s@) is None && (e matches ApiError::BadRequest(m) && m@
                == unknown_family_text(s@)),
        },
{
    let owned = String::from_str(s);
    if owned == String::from_str("sdxl1") {
        Ok(ModelFamily::Sdxl1)
    } else if owned == String::from_str("dit_anima") {
        Ok(ModelFamily::DitAnima)
    } else if owned == String::from_str("dit_krea2") {
        Ok(ModelFamily::DitKrea2)
    } else {
        let mut m = String::from_str("未知模型族：");
        m.append(s);
        m.append("（可选 sdxl1 / dit_anima / dit_krea2）");
        Err(ApiError::BadRequest(m))
    }
}

/// A model registration: the family must be known and the name not blank.
pub fn check_model_input(name: &str, family: &str) -> (r: Result<ModelFamily, ApiError>)
    ensures
        match r {
            Ok(f) => family_named(family@) == Some(f) && trimmed(name@).len() > 0,
            Err(e) => if family_named(family@) is None {
                e matches ApiError::BadRequest(m) && m@ == unknown_family_text(family@)
            } else {
                trimmed(name@).len() == 0 && (e matches ApiError::BadRequest(m) && m@ == "模型名称不能为空"@)
            },
        },
{
    let f = parse_family(family)?;
    if trim_text(name).unicode_len() == 0 {
        return Err(ApiError::BadRequest(String::from_str("模型名称不能为空")));
    }
    Ok(f)
}

/// The models folder an imported asset goes to.
pub open spec fn asset_dir(kind: Seq<char>) -> Option<Seq<char>> {
    if kind == "base_model"@ {
        Some("base_model"@)
    } else if kind == "vae"@ {
        Some("vae"@)
    } else if kind == "clip"@ {
        Some("clip"@)
    } else {
        None
    }
}

/// The models folder of an asset kind; other kinds are refused.
pub fn asset_kind_dir(kind: &str) -> (r: Result<&'static str, ApiError>)
    ensures
        match r {
            Ok(d) => asset_dir(kind@) == Some(d@),
            Err(e) => asset_dir(kind@) is None && (e matches ApiError::BadRequest(m) && m@ == "未知资产类型："@
                + kind@ + "（base_model / vae / clip）"@),
        },
{
    let k = String::from_str(kind);
    if k == String::from_str("base_model") {
        Ok("base_model")
    } else if k == String::from_str("vae") {
        Ok("vae")
    } else if k == String::from_str("clip") {
        Ok("clip")
    } else {
        let mut m = String::from_str("未知资产类型：");
        m.append(kind);
        m.append("（base_model / vae / clip）");
        Err(ApiError::BadRequest(m))
    }
}

/// The answer to an entity that does not exist.
pub fn not_found(entity: &str, id: &str) -> (e: ApiError)
    ensures
        e matches ApiError::NotFound(m) && m@ == entity@ + " "@ + id@ + " 不存在"@,
{
    let mut m = String::from_str(entity);
    m.append(" ");
    m.append(id);
    m.append(" 不存在");
    ApiError::NotFound(m)
}

/// The answer to an illegal move: both states by label and by name.
pub open spec fn illegal_move_text(from: RunState, to: RunState) -> Seq<char> {
    "非法状态迁移："@ + state_label(from) + "（\""@ + state_name(from) + "\"）不可迁移到 "@ + state_label(to)
        + "（\""@ + state_name(to) + "\"）"@
}

/// A requested move of a run: legal moves pass, others are a conflict.
pub fn check_transition(from: RunState, to: RunState) -> (r: Result<(), ApiError>)
    ensures
        r is Ok <==> can_step(from, to),
        r matches Err(e) ==> (e matches ApiError::Conflict(m) && m@ == illegal_move_text(from, to)),
{
    if from.can_transition_to(to) {
        return Ok(());
    }
    let mut m = String::from_str("非法状态迁移：");
    m.append(from.label());
    m.append("（\"");
    m.append(from.as_str());
    m.append("\"）不可迁移到 ");
    m.append(to.label());
    m.append("（\"");
    m.append(to.as_str());
    m.append("\"）");
    proof {
        assert(m@ =~= illegal_move_text(from, to));
    }
    Err(ApiError::Conflict(m))
}

/// A run may be queued when it was just created or has failed.
pub open spec fn can_enqueue(s: RunState) -> bool {
    s == RunState::Created || s == RunState::Failed
}

/// A start request: a run that was just created or has failed is queued; any
/// other is a conflict.
pub fn check_enqueue(s: RunState) -> (r: Result<(), ApiError>)
    ensures
        r is Ok <==> can_enqueue(s),
        r matches Err(e) ==> (e matches ApiError::Conflict(m) && m@ == "任务状态 "@ + state_label(s)
            + " 不可入队（需 已创建/炸炉）"@),
{
    match s {
        RunState::Created | RunState::Failed => Ok(()),
        _ => {
            let mut m = String::from_str("任务状态 ");
            m.append(s.label());
            m.append(" 不可入队（需 已创建/炸炉）");
            Err(ApiError::Conflict(m))
        },
    }
}

/// A delete request: only an ended run (done, failed or canceled) may go.
pub fn check_deletable(s: RunState) -> (r: Result<(), ApiError>)
    ensures
        r is Ok <==> terminal(s),
        r matches Err(e) ==> (e matches ApiError::Conflict(m) && m@ == "任务状态 "@ + state_label(s)
            + " 未结束，不能删除（可先熄灭）"@),
{
    if s.is_terminal() {
        return Ok(());
    }
    let mut m = String::from_str("任务状态 ");
    m.append(s.label());
    m.append(" 未结束，不能删除（可先熄灭）");
    Err(ApiError::Conflict(m))
}

/// The errors among a validator's findings.
pub open spec fn error_issues(v: Seq<RecipeIssue>) -> Seq<RecipeIssue> {
    v.filter(|i: RecipeIssue| i.level == IssueLevel::Error)
}

/// `field: message` of each error, joined by `；`.
pub open spec fn error_list(v: Seq<RecipeIssue>) -> Seq<char>
    decreases v.len(),
{
    if v.len() == 0 {
        Seq::empty()
    } else if v.len() == 1 {
        v[0].field@ + ": "@ + v[0].message@
    } else {
        error_list(v.drop_last()) + "；"@ + v.last().field@ + ": "@ + v.last().message@
    }
}

/// The answer to a recipe with errors: how many, then each of them.
pub open spec fn rejected_recipe_text(errors: Seq<RecipeIssue>) -> Seq<char> {
    "丹方校验失败（"@ + decimal(errors.len()) + " 项错误）："@ + error_list(errors)
}

proof fn lemma_filter_push(v: Seq<RecipeIssue>, x: RecipeIssue)
    ensures
        error_issues(v.push(x)) == if x.level == IssueLevel::Error {
            error_issues(v).push(x)
        } else {
            error_issues(v)
        },
{
    reveal(Seq::filter);
    assert(v.push(x).drop_last() =~= v);
}

/// A recipe may be stored when the validator found no error; otherwise the
/// request is refused with the errors.
pub fn check_recipe_issues(issues: &Vec<RecipeIssue>) -> (r: Result<(), ApiError>)
    ensures
        r is Ok <==> error_issues(issues@).len() == 0,
        r matches Err(e) ==> (e matches ApiError::BadRequest(m) && m@ == rejected_recipe_text(
            error_issues(issues@),
        )),
{
    let mut list = String::new();
    let mut count: u64 = 0;
    let mut i: usize = 0;
    while i < issues.len()
        invariant
            i <= issues@.len(),
            count == error_issues(issues@.take(i as int)).len(),
            count <= i,
            list@ == error_list(error_issues(issues@.take(i as int))),
        decreases issues@.len() - i,
    {
        proof {
            assert(issues@.take(i as int + 1) =~= issues@.take(i as int).push(issues@[i as int]));
            lemma_filter_push(issues@.take(i as int), issues@[i as int]);
        }
        if issues[i].level == IssueLevel::Error {
            if count > 0 {
                list.append("；");
            }
            list.append(issues[i].field.as_str());
            list.append(": ");
            list.append(issues[i].message.as_str());
            count = count + 1;
            proof {
                let e = error_issues(issues@.take(i as int + 1));
                assert(e.drop_last() =~= error_issues(issues@.take(i as int)));
                assert(list@ =~= error_list(e));
            }
        }
        i = i + 1;
    }
    proof {
        assert(issues@.take(issues@.len() as int) =~= issues@);
    }
    if count == 0 {
        return Ok(());
    }
    let mut m = String::from_str("丹方校验失败（");
    push_decimal(&mut m, count);
    m.append(" 项错误）：");
    m.append(list.as_str());
    proof {
        assert(m@ =~= rejected_recipe_text(error_issues(issues@)));
    }
    Err(ApiError::BadRequest(m))
}

/// Where the server listens.
#[derive(Debug, Clone)]
pub struct ServerConfig {
    pub host: String,
    pub port: u16,
    /// Whether a new run drives the demo kernel right away.
    pub demo: bool,
}

impl Default for ServerConfig {
    /// Local host, port 18765, demo on.
    fn default() -> (c: Self)
        ensures
            c.host@ == "127.0.0.1"@,
            c.port == 18765,
            c.demo,
    {
        ServerConfig { host: String::from_str("127.0.0.1"), port: 18765, demo: true }
    }
}

impl ServerConfig {
    /// `http://host:port`.
    pub fn base_url(&self) -> (r: String)
        ensures
            r@ == "http://"@ + self.host@ + ":"@ + decimal(self.port as nat),
    {
        let mut r = String::from_str("http://");
        r.append(self.host.as_str());
        r.append(":");
        push_decimal(&mut r, self.port as u64);
        proof {
            assert(r@ =~= "http://"@ + self.host@ + ":"@ + decimal(self.port as nat));
        }
        r
    }
}


/// A name that would leave the output folder or is blank.
pub open spec fn bad_checkpoint_name(t: Seq<char>) -> bool {
    t.len() == 0 || t.contains('/') || t.contains('\\') || t.contains(':')
}

/// The new name of a checkpoint: trimmed; blank names and names with a path
/// separator or a drive colon are refused.
pub fn checkpoint_name(input: &str) -> (r: Result<String, ApiError>)
    ensures
        match r {
            Ok(n) => n@ == trimmed(input@) && !bad_checkpoint_name(trimmed(input@)),
            Err(e) => bad_checkpoint_name(trimmed(input@)) && (e matches ApiError::BadRequest(m) && m@
                == "名称不能为空且不能包含路径分隔符"@),
        },
{
    let t = trim_text(input);
    let n = t.unicode_len();
    let mut i: usize = 0;
    while i < n
        invariant
            n == t@.len(),
            t@ == trimmed(input@),
            i <= n,
            forall|k: int| 0 <= k < i ==> #[trigger] t@[k] != '/' && t@[k] != '\\' && t@[k] != ':',
        decreases n - i,
    {
        let c = t.get_char(i);
        if c == '/' || c == '\\' || c == ':' {
            proof {
                assert(t@.contains(c));
            }
            return Err(ApiError::BadRequest(String::from_str("名称不能为空且不能包含路径分隔符")));
        }
        i = i + 1;
    }
    if n == 0 {
        return Err(ApiError::BadRequest(String::from_str("名称不能为空且不能包含路径分隔符")));
    }
    proof {
        assert(!t@.contains('/'));
        assert(!t@.contains('\\'));
        assert(!t@.contains(':'));
    }
    Ok(String::from_str(t))
}

/// File name of a renamed checkpoint: the new name with the old extension.
pub fn renamed_file(name: &str, ext: &str) -> (r: String)
    ensures
        r@ == if ext@.len() > 0 {
            name@ + "."@ + ext@
        } else {
            name@
        },
{
    let mut r = String::from_str(name);
    if ext.unicode_len() > 0 {
        r.append(".");
        r.append(ext);
    }
    r
}

} // verus!
