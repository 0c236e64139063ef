//! Recipe validation: range checks and family applicability, run before a
//! recipe is stored or a training run is started.

use vstd::prelude::*;

use crate::family::{family_label, ModelFamily};
use crate::number::{
    f64_double, f64_le, f64_lt, real_double, real_le, real_lt, Real, HALF_BITS, TENTH_BITS, ZERO_BITS,
};
use crate::recipe::schema::{network_label, NetworkType, Precision, RecipeData};
use crate::text::{decimal, u64_to_string};

verus! {

/// Severity of a finding.
#[derive(Debug, Clone, Copy, PartialEq, Eq, Structural)]
pub enum IssueLevel {
    /// Blocks the start of training.
    Error,
    /// Training may go on with a warning.
    Warning,
}

/// One finding of the validator.
#[derive(Debug, Clone)]
pub struct RecipeIssue {
    pub level: IssueLevel,
    pub field: String,
    pub message: String,
}

/// A finding as plain values: level, field name, message.
pub type IssueView = (IssueLevel, Seq<char>, Seq<char>);

/// The plain values of a finding.
pub open spec fn issue_view(i: RecipeIssue) -> IssueView {
    (i.level, i.field@, i.message@)
}

/// One finding when `cond` holds, none otherwise.
pub open spec fn finding(cond: bool, level: IssueLevel, field: Seq<char>, message: Seq<char>) -> Seq<IssueView> {
    if cond {
        seq![(level, field, message)]
    } else {
        seq![]
    }
}

/// A learning rate outside `(0, 0.1]` (NaN included).
pub open spec fn lr_out_of_range(x: Real) -> bool {
    !(f64_lt(ZERO_BITS, x.bits) && f64_le(x.bits, TENTH_BITS))
}

/// The learning-rate findings.
pub open spec fn lr_findings(d: RecipeData) -> Seq<IssueView> {
    finding(
        lr_out_of_range(d.learning_rate),
        IssueLevel::Error,
        "learning_rate"@,
        "学习率 "@ + d.learning_rate.text@ + " 超出合理范围 (0, 0.1]"@,
    ) + match d.text_encoder_lr {
        Some(te) => finding(
            lr_out_of_range(te),
            IssueLevel::Error,
            "text_encoder_lr"@,
            "文本编码器学习率 "@ + te.text@ + " 超出合理范围 (0, 0.1]"@,
        ),
        None => seq![],
    } + match d.unet_lr {
        Some(u) => finding(
            lr_out_of_range(u),
            IssueLevel::Error,
            "unet_lr"@,
            "UNet 学习率 "@ + u.text@ + " 超出合理范围 (0, 0.1]"@,
        ),
        None => seq![],
    } + match (d.text_encoder_lr, d.unet_lr) {
        (Some(te), Some(u)) => finding(
            f64_lt(f64_double(u.bits), te.bits),
            IssueLevel::Warning,
            "text_encoder_lr"@,
            "文本编码器学习率 "@ + te.text@ + " 显著高于 UNet "@ + u.text@
                + "，易导致过拟合（建议 TE ≤ UNet）"@,
        ),
        _ => seq![],
    }
}

/// The network findings.
pub open spec fn network_findings(family: ModelFamily, d: RecipeData) -> Seq<IssueView> {
    finding(
        d.network_dim == 0 || d.network_dim > 256,
        IssueLevel::Error,
        "network_dim"@,
        "network_dim "@ + decimal(d.network_dim as nat) + " 超出范围 [1, 256]"@,
    ) + finding(
        d.network_alpha == 0 || d.network_alpha > 512,
        IssueLevel::Error,
        "network_alpha"@,
        "network_alpha "@ + decimal(d.network_alpha as nat) + " 超出范围 [1, 512]"@,
    ) + finding(
        d.block_weights is Some && family != ModelFamily::Sdxl1,
        IssueLevel::Error,
        "block_weights"@,
        "block_weights 仅适用于 SDXL 族（当前 "@ + family_label(family) + "）"@,
    ) + finding(
        family == ModelFamily::DitKrea2 && (d.network_type == NetworkType::Tlora || d.network_type
            == NetworkType::LoHa || d.network_type == NetworkType::Ia3),
        IssueLevel::Warning,
        "network_type"@,
        network_label(d.network_type) + " 网络在 Krea 2（ai-toolkit 内核）路径未验证，建议使用 lora/locon/lokr"@,
    )
}

/// The training-scale findings.
pub open spec fn scale_findings(d: RecipeData) -> Seq<IssueView> {
    finding(
        d.max_train_epochs == 0 || d.max_train_epochs > 1000,
        IssueLevel::Error,
        "max_train_epochs"@,
        "轮数 "@ + decimal(d.max_train_epochs as nat) + " 超出范围 [1, 1000]"@,
    ) + finding(
        d.batch_size == 0 || d.batch_size > 64,
        IssueLevel::Error,
        "batch_size"@,
        "batch_size "@ + decimal(d.batch_size as nat) + " 超出范围 [1, 64]"@,
    ) + finding(
        d.gradient_accumulation_steps == 0 || d.gradient_accumulation_steps > 64,
        IssueLevel::Error,
        "gradient_accumulation_steps"@,
        "梯度累积 "@ + decimal(d.gradient_accumulation_steps as nat) + " 超出范围 [1, 64]"@,
    ) + finding(
        d.resolution < 256 || d.resolution > 4096,
        IssueLevel::Error,
        "resolution"@,
        "分辨率 "@ + decimal(d.resolution as nat) + " 超出范围 [256, 4096]"@,
    )
}

/// The scheduling, saving, sampling and precision findings.
pub open spec fn run_findings(family: ModelFamily, d: RecipeData) -> Seq<IssueView> {
    finding(
        !(f64_le(ZERO_BITS, d.lr_warmup_ratio.bits) && f64_le(d.lr_warmup_ratio.bits, HALF_BITS)),
        IssueLevel::Warning,
        "lr_warmup_ratio"@,
        "预热比例 "@ + d.lr_warmup_ratio.text@ + " 建议在 [0, 0.5]"@,
    ) + finding(
        d.save_every_n_epochs == 0,
        IssueLevel::Error,
        "save_every_n_epochs"@,
        "保存间隔必须 ≥ 1"@,
    ) + finding(
        d.sample_every_n_epochs > 0 && d.sample_prompts@.len() == 0,
        IssueLevel::Warning,
        "sample_prompts"@,
        "启用了周期采样但没有采样提示词，将无图可出"@,
    ) + finding(
        d.mixed_precision == Precision::Fp16 && family == ModelFamily::DitAnima,
        IssueLevel::Warning,
        "mixed_precision"@,
        "Anima 训练用 fp16 易出现 NaN（社区经验），建议 bf16（参考 lora-scripts-next）"@,
    )
}

/// The findings on caption tricks that cached text-encoder outputs disable.
pub open spec fn cache_findings(d: RecipeData) -> Seq<IssueView> {
    finding(
        d.cache_text_encoder_outputs && d.shuffle_caption,
        IssueLevel::Warning,
        "shuffle_caption"@,
        "缓存文本编码器输出时 shuffle_caption 无效（sd-scripts 会禁用），如需随机打乱请关闭缓存"@,
    ) + finding(
        d.cache_text_encoder_outputs && d.caption_dropout_rate is Some,
        IssueLevel::Warning,
        "caption_dropout_rate"@,
        "缓存文本编码器输出时 caption_dropout_rate 无效（sd-scripts 会禁用）"@,
    )
}

/// The scheduling, saving, sampling, precision and caching findings.
pub open spec fn other_findings(family: ModelFamily, d: RecipeData) -> Seq<IssueView> {
    run_findings(family, d) + cache_findings(d)
}

/// All findings for a recipe, in the order the validator reports them.
pub open spec fn recipe_findings(family: ModelFamily, d: RecipeData) -> Seq<IssueView> {
    lr_findings(d) + network_findings(family, d) + scale_findings(d) + other_findings(family, d)
}

/// The plain values of a list of findings.
pub open spec fn issues_view(v: Seq<RecipeIssue>) -> Seq<IssueView> {
    v.map_values(|i: RecipeIssue| issue_view(i))
}

fn report(issues: &mut Vec<RecipeIssue>, level: IssueLevel, field: &str, message: String)
    ensures
        issues_view(final(issues)@) == issues_view(old(issues)@).push((level, field@, message@)),
{
    issues.push(RecipeIssue { level, field: String::from_str(field), message });
    proof {
        assert(issues_view(issues@) =~= issues_view(old(issues)@).push((level, field@, message@)));
    }
}

fn text3(a: &str, b: &str, c: &str) -> (s: String)
    ensures
        s@ == a@ + b@ + c@,
{
    let mut s = String::from_str(a);
    s.append(b);
    s.append(c);
    s
}

fn number_text(a: &str, n: u32, c: &str) -> (s: String)
    ensures
        s@ == a@ + decimal(n as nat) + c@,
{
    let mut s = String::from_str(a);
    let d = u64_to_string(n as u64);
    s.append(d.as_str());
    s.append(c);
    s
}

fn lr_bad(x: &Real) -> (r: bool)
    ensures
        r == lr_out_of_range(*x),
{
    !(real_lt(ZERO_BITS, x.bits) && real_le(x.bits, TENTH_BITS))
}

fn check_learning_rates(d: &RecipeData, issues: &mut Vec<RecipeIssue>)
    ensures
        issues_view(final(issues)@) == issues_view(old(issues)@) + lr_findings(*d),
{
    let ghost start = issues_view(issues@);
    if lr_bad(&d.learning_rate) {
        report(issues, IssueLevel::Error, "learning_rate", text3("学习率 ", d.learning_rate.text.as_str(), " 超出合理范围 (0, 0.1]"));
    }
    let ghost s1 = issues_view(issues@);
    if let Some(te) = &d.text_encoder_lr {
        if lr_bad(te) {
            report(issues, IssueLevel::Error, "text_encoder_lr", text3("文本编码器学习率 ", te.text.as_str(), " 超出合理范围 (0, 0.1]"));
        }
    }
    let ghost s2 = issues_view(issues@);
    if let Some(u) = &d.unet_lr {
        if lr_bad(u) {
            report(issues, IssueLevel::Error, "unet_lr", text3("UNet 学习率 ", u.text.as_str(), " 超出合理范围 (0, 0.1]"));
        }
    }
    let ghost s3 = issues_view(issues@);
    if let (Some(te), Some(u)) = (&d.text_encoder_lr, &d.unet_lr) {
        if real_lt(real_double(u.bits), te.bits) {
            let mut m = text3("文本编码器学习率 ", te.text.as_str(), " 显著高于 UNet ");
            m.append(u.text.as_str());
            m.append("，易导致过拟合（建议 TE ≤ UNet）");
            report(issues, IssueLevel::Warning, "text_encoder_lr", m);
        }
    }
    proof {
        assert(issues_view(issues@) =~= start + lr_findings(*d));
    }
}

fn check_network(family: ModelFamily, d: &RecipeData, issues: &mut Vec<RecipeIssue>)
    ensures
        issues_view(final(issues)@) == issues_view(old(issues)@) + network_findings(family, *d),
{
    let ghost start = issues_view(issues@);
    if d.network_dim == 0 || d.network_dim > 256 {
        report(issues, IssueLevel::Error, "network_dim", number_text("network_dim ", d.network_dim, " 超出范围 [1, 256]"));
    }
    if d.network_alpha == 0 || d.network_alpha > 512 {
        report(issues, IssueLevel::Error, "network_alpha", number_text("network_alpha ", d.network_alpha, " 超出范围 [1, 512]"));
    }
    if d.block_weights.is_some() && family != ModelFamily::Sdxl1 {
        report(issues, IssueLevel::Error, "block_weights", text3("block_weights 仅适用于 SDXL 族（当前 ", family.label(), "）"));
    }
    if family == ModelFamily::DitKrea2 && (d.network_type == NetworkType::Tlora || d.network_type
        == NetworkType::LoHa || d.network_type == NetworkType::Ia3) {
        let mut m = String::from_str(d.network_type.label());
        m.append(" 网络在 Krea 2（ai-toolkit 内核）路径未验证，建议使用 lora/locon/lokr");
        report(issues, IssueLevel::Warning, "network_type", m);
    }
    proof {
        assert(issues_view(issues@) =~= start + network_findings(family, *d));
    }
}

fn check_scale(d: &RecipeData, issues: &mut Vec<RecipeIssue>)
    ensures
        issues_view(final(issues)@) == issues_view(old(issues)@) + scale_findings(*d),
{
    let ghost start = issues_view(issues@);
    if d.max_train_epochs == 0 || d.max_train_epochs > 1000 {
        report(issues, IssueLevel::Error, "max_train_epochs", number_text("轮数 ", d.max_train_epochs, " 超出范围 [1, 1000]"));
    }
    if d.batch_size == 0 || d.batch_size > 64 {
        report(issues, IssueLevel::Error, "batch_size", number_text("batch_size ", d.batch_size, " 超出范围 [1, 64]"));
    }
    if d.gradient_accumulation_steps == 0 || d.gradient_accumulation_steps > 64 {
        report(
            issues,
            IssueLevel::Error,
            "gradient_accumulation_steps",
            number_text("梯度累积 ", d.gradient_accumulation_steps, " 超出范围 [1, 64]"),
        );
    }
    if d.resolution < 256 || d.resolution > 4096 {
        report(issues, IssueLevel::Error, "resolution", number_text("分辨率 ", d.resolution, " 超出范围 [256, 4096]"));
    }
    proof {
        assert(issues_view(issues@) =~= start + scale_findings(*d));
    }
}

fn check_run(family: ModelFamily, d: &RecipeData, issues: &mut Vec<RecipeIssue>)
    ensures
        issues_view(final(issues)@) == issues_view(old(issues)@) + run_findings(family, *d),
{
    let ghost start = issues_view(issues@);
    if !(real_le(ZERO_BITS, d.lr_warmup_ratio.bits) && real_le(d.lr_warmup_ratio.bits, HALF_BITS)) {
        report(issues, IssueLevel::Warning, "lr_warmup_ratio", text3("预热比例 ", d.lr_warmup_ratio.text.as_str(), " 建议在 [0, 0.5]"));
    }
    if d.save_every_n_epochs == 0 {
        report(issues, IssueLevel::Error, "save_every_n_epochs", String::from_str("保存间隔必须 ≥ 1"));
    }
    if d.sample_every_n_epochs > 0 && d.sample_prompts.len() == 0 {
        report(issues, IssueLevel::Warning, "sample_prompts", String::from_str("启用了周期采样但没有采样提示词，将无图可出"));
    }
    if d.mixed_precision == Precision::Fp16 && family == ModelFamily::DitAnima {
        report(
            issues,
            IssueLevel::Warning,
            "mixed_precision",
            String::from_str("Anima 训练用 fp16 易出现 NaN（社区经验），建议 bf16（参考 lora-scripts-next）"),
        );
    }
    proof {
        assert(issues_view(issues@) =~= start + run_findings(family, *d));
    }
}

fn check_cache(d: &RecipeData, issues: &mut Vec<RecipeIssue>)
    ensures
        issues_view(final(issues)@) == issues_view(old(issues)@) + cache_findings(*d),
{
    let ghost start = issues_view(issues@);
    if d.cache_text_encoder_outputs {
        if d.shuffle_caption {
            report(
                issues,
                IssueLevel::Warning,
                "shuffle_caption",
                String::from_str("缓存文本编码器输出时 shuffle_caption 无效（sd-scripts 会禁用），如需随机打乱请关闭缓存"),
            );
        }
        if d.caption_dropout_rate.is_some() {
            report(
                issues,
                IssueLevel::Warning,
                "caption_dropout_rate",
                String::from_str("缓存文本编码器输出时 caption_dropout_rate 无效（sd-scripts 会禁用）"),
            );
        }
    }
    proof {
        assert(issues_view(issues@) =~= start + cache_findings(*d));
    }
}

/// Validates a recipe for a family: every finding of [`recipe_findings`], in order.
pub fn validate_recipe(family: ModelFamily, data: &RecipeData) -> (issues: Vec<RecipeIssue>)
    ensures
        issues_view(issues@) == recipe_findings(family, *data),
{
    let mut issues: Vec<RecipeIssue> = Vec::new();
    proof {
        assert(issues_view(issues@) =~= Seq::<IssueView>::empty());
    }
    check_learning_rates(data, &mut issues);
    check_network(family, data, &mut issues);
    check_scale(data, &mut issues);
    check_run(family, data, &mut issues);
    check_cache(data, &mut issues);
    proof {
        assert(issues_view(issues@) =~= recipe_findings(family, *data));
    }
    issues
}

/// Whether any finding blocks the start of training.
pub fn has_errors(issues: &Vec<RecipeIssue>) -> (r: bool)
    ensures
        r == exists|k: int| 0 <= k < issues@.len() && #[trigger] issues@[k].level == IssueLevel::Error,
{
    let mut k: usize = 0;
    while k < issues.len()
        invariant
            k <= issues@.len(),
            forall|q: int| 0 <= q < k ==> #[trigger] issues@[q].level != IssueLevel::Error,
        decreases issues@.len() - k,
    {
        if issues[k].level == IssueLevel::Error {
            return true;
        }
        k = k + 1;
    }
    false
}


/// Some finding blocks the start of training.
pub open spec fn has_error(v: Seq<IssueView>) -> bool {
    exists|k: int| 0 <= k < v.len() && (#[trigger] v[k]).0 == IssueLevel::Error
}

/// A concatenation holds an error exactly when one of its parts does.
pub proof fn lemma_has_error_concat(a: Seq<IssueView>, b: Seq<IssueView>)
    ensures
        has_error(a + b) == (has_error(a) || has_error(b)),
{
    if has_error(a + b) {
        let k = choose|k: int| 0 <= k < (a + b).len() && (#[trigger] (a + b)[k]).0 == IssueLevel::Error;
        if k < a.len() {
            assert(a[k] == (a + b)[k]);
        } else {
            assert(b[k - a.len()] == (a + b)[k]);
        }
    }
    if has_error(a) {
        let k = choose|k: int| 0 <= k < a.len() && (#[trigger] a[k]).0 == IssueLevel::Error;
        assert((a + b)[k] == a[k]);
    }
    if has_error(b) {
        let k = choose|k: int| 0 <= k < b.len() && (#[trigger] b[k]).0 == IssueLevel::Error;
        assert((a + b)[a.len() + k] == b[k]);
    }
}

/// A finding that is not an error, or whose condition fails, holds no error.
pub proof fn lemma_no_error_finding(cond: bool, level: IssueLevel, field: Seq<char>, message: Seq<char>)
    requires
        !cond || level == IssueLevel::Warning,
    ensures
        !has_error(finding(cond, level, field, message)),
{
    if cond {
        assert(finding(cond, level, field, message)[0].0 == level);
    }
}


/// With the rates in range, the learning-rate findings hold no error.
pub proof fn lemma_lr_no_error(d: RecipeData)
    requires
        !lr_out_of_range(d.learning_rate),
        d.text_encoder_lr matches Some(te) ==> !lr_out_of_range(te),
        d.unet_lr matches Some(u) ==> !lr_out_of_range(u),
    ensures
        !has_error(lr_findings(d)),
{
    let a = finding(
        lr_out_of_range(d.learning_rate),
        IssueLevel::Error,
        "learning_rate"@,
        "学习率 "@ + d.learning_rate.text@ + " 超出合理范围 (0, 0.1]"@,
    );
    let b = match d.text_encoder_lr {
        Some(te) => finding(
            lr_out_of_range(te),
            IssueLevel::Error,
            "text_encoder_lr"@,
            "文本编码器学习率 "@ + te.text@ + " 超出合理范围 (0, 0.1]"@,
        ),
        None => seq![],
    };
    let c = match d.unet_lr {
        Some(u) => finding(
            lr_out_of_range(u),
            IssueLevel::Error,
            "unet_lr"@,
            "UNet 学习率 "@ + u.text@ + " 超出合理范围 (0, 0.1]"@,
        ),
        None => seq![],
    };
    let rest = lr_findings(d).skip((a.len() + b.len() + c.len()) as int);
    assert(lr_findings(d) =~= a + b + c + rest);
    assert(!has_error(a));
    assert(!has_error(b));
    assert(!has_error(c));
    assert forall|k: int| 0 <= k < rest.len() implies (#[trigger] rest[k]).0 == IssueLevel::Warning by {
        assert(rest[k] == lr_findings(d)[a.len() + b.len() + c.len() + k]);
    }
    lemma_has_error_concat(a, b);
    lemma_has_error_concat(a + b, c);
    lemma_has_error_concat(a + b + c, rest);
}

/// No finding of `v` is about field `fld`.
pub open spec fn no_finding_on(v: Seq<IssueView>, fld: Seq<char>) -> bool {
    forall|k: int| 0 <= k < v.len() ==> (#[trigger] v[k]).1 != fld
}

/// Some finding of `v` is an error about field `fld`.
pub open spec fn error_on(v: Seq<IssueView>, fld: Seq<char>) -> bool {
    exists|k: int| 0 <= k < v.len() && (#[trigger] v[k]).0 == IssueLevel::Error && v[k].1 == fld
}


proof fn lemma_not_on_concat(a: Seq<IssueView>, b: Seq<IssueView>, fld: Seq<char>)
    requires
        no_finding_on(a, fld),
        no_finding_on(b, fld),
    ensures
        no_finding_on(a + b, fld),
{
    assert forall|k: int| 0 <= k < (a + b).len() implies (#[trigger] (a + b)[k]).1 != fld by {
        if k < a.len() {
            assert((a + b)[k] == a[k]);
        } else {
            assert((a + b)[k] == b[k - a.len()]);
        }
    }
}


proof fn lemma_field_names()
    ensures
        "block_weights"@.len() == 13 && "block_weights"@[0] == 'b',
        "learning_rate"@[0] == 'l' && "network_alpha"@[0] == 'n',
        "text_encoder_lr"@.len() == 15 && "unet_lr"@.len() == 7 && "network_dim"@.len() == 11,
        "network_alpha"@.len() == 13 && "network_type"@.len() == 12 && "max_train_epochs"@.len() == 16,
        "batch_size"@.len() == 10 && "gradient_accumulation_steps"@.len() == 27 && "resolution"@.len() == 10,
        "lr_warmup_ratio"@.len() == 15 && "save_every_n_epochs"@.len() == 19 && "sample_prompts"@.len() == 14,
        "mixed_precision"@.len() == 15 && "shuffle_caption"@.len() == 15 && "caption_dropout_rate"@.len() == 20,
        "learning_rate"@.len() == 13,
        "text_encoder_lr"@[0] == 't' && "lr_warmup_ratio"@[0] == 'l' && "mixed_precision"@[0] == 'm',
        "shuffle_caption"@[0] == 's' && "batch_size"@[0] == 'b' && "resolution"@[0] == 'r',
        "save_every_n_epochs"@[0] == 's' && "sample_prompts"@[0] == 's',
{
    reveal_strlit("block_weights");
    reveal_strlit("learning_rate");
    reveal_strlit("text_encoder_lr");
    reveal_strlit("unet_lr");
    reveal_strlit("network_dim");
    reveal_strlit("network_alpha");
    reveal_strlit("network_type");
    reveal_strlit("max_train_epochs");
    reveal_strlit("batch_size");
    reveal_strlit("gradient_accumulation_steps");
    reveal_strlit("resolution");
    reveal_strlit("lr_warmup_ratio");
    reveal_strlit("save_every_n_epochs");
    reveal_strlit("sample_prompts");
    reveal_strlit("mixed_precision");
    reveal_strlit("shuffle_caption");
    reveal_strlit("caption_dropout_rate");
}

proof fn lemma_lr_not_on_block_weights(d: RecipeData)
    ensures
        no_finding_on(lr_findings(d), "block_weights"@),
{
    lemma_field_names();
    let lr = lr_findings(d);
    assert forall|k: int| 0 <= k < lr.len() implies (#[trigger] lr[k]).1 != "block_weights"@ by {
        assert(lr[k].1 == "learning_rate"@ || lr[k].1 == "text_encoder_lr"@ || lr[k].1 == "unet_lr"@);
    }
}

proof fn lemma_scale_not_on_block_weights(d: RecipeData)
    ensures
        no_finding_on(scale_findings(d), "block_weights"@),
{
    lemma_field_names();
    let sc = scale_findings(d);
    assert forall|k: int| 0 <= k < sc.len() implies (#[trigger] sc[k]).1 != "block_weights"@ by {
        assert(sc[k].1 == "max_train_epochs"@ || sc[k].1 == "batch_size"@ || sc[k].1
            == "gradient_accumulation_steps"@ || sc[k].1 == "resolution"@);
    }
}

proof fn lemma_other_not_on_block_weights(family: ModelFamily, d: RecipeData)
    ensures
        no_finding_on(other_findings(family, d), "block_weights"@),
{
    lemma_field_names();
    let ot = other_findings(family, d);
    assert forall|k: int| 0 <= k < ot.len() implies (#[trigger] ot[k]).1 != "block_weights"@ by {
        assert(ot[k].1 == "lr_warmup_ratio"@ || ot[k].1 == "save_every_n_epochs"@ || ot[k].1
            == "sample_prompts"@ || ot[k].1 == "mixed_precision"@ || ot[k].1 == "shuffle_caption"@
            || ot[k].1 == "caption_dropout_rate"@);
    }
}

proof fn lemma_sdxl_network_not_on_block_weights(d: RecipeData)
    ensures
        no_finding_on(network_findings(ModelFamily::Sdxl1, d), "block_weights"@),
{
    lemma_field_names();
    let net = network_findings(ModelFamily::Sdxl1, d);
    assert forall|k: int| 0 <= k < net.len() implies (#[trigger] net[k]).1 != "block_weights"@ by {
        assert(net[k].1 == "network_dim"@ || net[k].1 == "network_alpha"@ || net[k].1 == "network_type"@);
    }
}

/// `block_weights` (per-block learning rates of the SDXL U-Net) is an error
/// exactly for families other than SDXL: a recipe for another family that
/// sets it gets an error on that field, and no SDXL recipe gets any finding
/// on it.
pub proof fn lemma_block_weights_sdxl_only(family: ModelFamily, d: RecipeData)
    ensures
        (d.block_weights is Some && family != ModelFamily::Sdxl1) ==> error_on(
            recipe_findings(family, d),
            "block_weights"@,
        ),
        family == ModelFamily::Sdxl1 ==> no_finding_on(recipe_findings(family, d), "block_weights"@),
{
    let bw = "block_weights"@;
    let lr = lr_findings(d);
    let net = network_findings(family, d);
    let sc = scale_findings(d);
    let ot = other_findings(family, d);
    assert(recipe_findings(family, d) == lr + net + sc + ot);
    if d.block_weights is Some && family != ModelFamily::Sdxl1 {
        let n1 = finding(
            d.network_dim == 0 || d.network_dim > 256,
            IssueLevel::Error,
            "network_dim"@,
            "network_dim "@ + decimal(d.network_dim as nat) + " 超出范围 [1, 256]"@,
        );
        let n2 = finding(
            d.network_alpha == 0 || d.network_alpha > 512,
            IssueLevel::Error,
            "network_alpha"@,
            "network_alpha "@ + decimal(d.network_alpha as nat) + " 超出范围 [1, 512]"@,
        );
        let j: int = (n1.len() + n2.len()) as int;
        let k: int = lr.len() as int + j;
        assert(net[j].1 == bw && net[j].0 == IssueLevel::Error);
        assert((lr + net)[k] == net[j]);
        assert((lr + net + sc)[k] == (lr + net)[k]);
        assert(recipe_findings(family, d)[k] == (lr + net + sc)[k]);
        assert(recipe_findings(family, d)[k].0 == IssueLevel::Error && recipe_findings(family, d)[k].1 == bw);
    }
    if family == ModelFamily::Sdxl1 {
        lemma_lr_not_on_block_weights(d);
        lemma_sdxl_network_not_on_block_weights(d);
        lemma_scale_not_on_block_weights(d);
        lemma_other_not_on_block_weights(family, d);
        lemma_not_on_concat(lr, net, bw);
        lemma_not_on_concat(lr + net, sc, bw);
        lemma_not_on_concat(lr + net + sc, ot, bw);
    }
}

/// An error on a field in a concatenation is one in either part.
pub broadcast proof fn lemma_error_on_concat(a: Seq<IssueView>, b: Seq<IssueView>, fld: Seq<char>)
    ensures
        #[trigger] error_on(a + b, fld) == (error_on(a, fld) || error_on(b, fld)),
{
    if error_on(a + b, fld) {
        let k = choose|k: int|
            0 <= k < (a + b).len() && (#[trigger] (a + b)[k]).0 == IssueLevel::Error && (a + b)[k].1 == fld;
        if k < a.len() {
            assert(a[k] == (a + b)[k]);
        } else {
            assert(b[k - a.len()] == (a + b)[k]);
        }
    }
    if error_on(a, fld) {
        let k = choose|k: int| 0 <= k < a.len() && (#[trigger] a[k]).0 == IssueLevel::Error && a[k].1 == fld;
        assert((a + b)[k] == a[k]);
    }
    if error_on(b, fld) {
        let k = choose|k: int| 0 <= k < b.len() && (#[trigger] b[k]).0 == IssueLevel::Error && b[k].1 == fld;
        assert((a + b)[a.len() + k] == b[k]);
    }
}

/// One finding is an error on a field exactly when it is reported, is an
/// error, and is about that field.
pub broadcast proof fn lemma_error_on_finding(
    cond: bool,
    level: IssueLevel,
    field: Seq<char>,
    message: Seq<char>,
    fld: Seq<char>,
)
    ensures
        #[trigger] error_on(finding(cond, level, field, message), fld) == (cond && level == IssueLevel::Error
            && field == fld),
{
    if cond {
        assert(finding(cond, level, field, message)[0] == (level, field, message));
    }
}

/// No finding, no error.
pub broadcast proof fn lemma_error_on_empty(fld: Seq<char>)
    ensures
        #[trigger] error_on(Seq::<IssueView>::empty(), fld) == false,
{
}

/// Every finding of `v` is about one of the fields `s`.
pub open spec fn fields_among(v: Seq<IssueView>, s: Set<Seq<char>>) -> bool {
    forall|k: int| 0 <= k < v.len() ==> s.contains((#[trigger] v[k]).1)
}

proof fn lemma_no_error_outside(v: Seq<IssueView>, s: Set<Seq<char>>, fld: Seq<char>)
    requires
        fields_among(v, s),
        !s.contains(fld),
    ensures
        !error_on(v, fld),
{
    if error_on(v, fld) {
        let k = choose|k: int| 0 <= k < v.len() && (#[trigger] v[k]).0 == IssueLevel::Error && v[k].1 == fld;
        assert(s.contains(v[k].1));
    }
}

pub open spec fn lr_fields() -> Set<Seq<char>> {
    set!["learning_rate"@, "text_encoder_lr"@, "unet_lr"@]
}

pub open spec fn network_fields() -> Set<Seq<char>> {
    set!["network_dim"@, "network_alpha"@, "block_weights"@, "network_type"@]
}

pub open spec fn scale_fields() -> Set<Seq<char>> {
    set!["max_train_epochs"@, "batch_size"@, "gradient_accumulation_steps"@, "resolution"@]
}

pub open spec fn other_fields() -> Set<Seq<char>> {
    set![
        "lr_warmup_ratio"@,
        "save_every_n_epochs"@,
        "sample_prompts"@,
        "mixed_precision"@,
        "shuffle_caption"@,
        "caption_dropout_rate"@,
    ]
}

proof fn lemma_lr_group_fields(d: RecipeData)
    ensures
        fields_among(lr_findings(d), lr_fields()),
{
    let lr = lr_findings(d);
    assert forall|k: int| 0 <= k < lr.len() implies lr_fields().contains((#[trigger] lr[k]).1) by {
        assert(lr[k].1 == "learning_rate"@ || lr[k].1 == "text_encoder_lr"@ || lr[k].1 == "unet_lr"@);
    }
}

proof fn lemma_network_group_fields(family: ModelFamily, d: RecipeData)
    ensures
        fields_among(network_findings(family, d), network_fields()),
{
    let net = network_findings(family, d);
    assert forall|k: int| 0 <= k < net.len() implies network_fields().contains((#[trigger] net[k]).1) by {
        assert(net[k].1 == "network_dim"@ || net[k].1 == "network_alpha"@ || net[k].1 == "block_weights"@
            || net[k].1 == "network_type"@);
    }
}

proof fn lemma_scale_group_fields(d: RecipeData)
    ensures
        fields_among(scale_findings(d), scale_fields()),
{
    let sc = scale_findings(d);
    assert forall|k: int| 0 <= k < sc.len() implies scale_fields().contains((#[trigger] sc[k]).1) by {
        assert(sc[k].1 == "max_train_epochs"@ || sc[k].1 == "batch_size"@ || sc[k].1
            == "gradient_accumulation_steps"@ || sc[k].1 == "resolution"@);
    }
}

proof fn lemma_other_group_fields(family: ModelFamily, d: RecipeData)
    ensures
        fields_among(other_findings(family, d), other_fields()),
{
    let ot = other_findings(family, d);
    assert forall|k: int| 0 <= k < ot.len() implies other_fields().contains((#[trigger] ot[k]).1) by {
        assert(ot[k].1 == "lr_warmup_ratio"@ || ot[k].1 == "save_every_n_epochs"@ || ot[k].1
            == "sample_prompts"@ || ot[k].1 == "mixed_precision"@ || ot[k].1 == "shuffle_caption"@
            || ot[k].1 == "caption_dropout_rate"@);
    }
}

proof fn lemma_group_fields(family: ModelFamily, d: RecipeData)
    ensures
        fields_among(lr_findings(d), lr_fields()),
        fields_among(network_findings(family, d), network_fields()),
        fields_among(scale_findings(d), scale_fields()),
        fields_among(other_findings(family, d), other_fields()),
{
    lemma_lr_group_fields(d);
    lemma_network_group_fields(family, d);
    lemma_scale_group_fields(d);
    lemma_other_group_fields(family, d);
}

/// An error on `fld` in all findings is one in the group of that field.
proof fn lemma_error_in_group(family: ModelFamily, d: RecipeData, fld: Seq<char>)
    ensures
        error_on(recipe_findings(family, d), fld) == (error_on(lr_findings(d), fld) || error_on(
            network_findings(family, d),
            fld,
        ) || error_on(scale_findings(d), fld) || error_on(other_findings(family, d), fld)),
{
    let lr = lr_findings(d);
    let net = network_findings(family, d);
    let sc = scale_findings(d);
    let ot = other_findings(family, d);
    assert(recipe_findings(family, d) == lr + net + sc + ot);
    lemma_error_on_concat(lr + net + sc, ot, fld);
    lemma_error_on_concat(lr + net, sc, fld);
    lemma_error_on_concat(lr, net, fld);
}

/// A field of the network group: its error is decided there.
proof fn lemma_network_field_error(family: ModelFamily, d: RecipeData, fld: Seq<char>)
    requires
        network_fields().contains(fld),
    ensures
        error_on(recipe_findings(family, d), fld) == error_on(network_findings(family, d), fld),
{
    lemma_field_names();
    lemma_group_fields(family, d);
    lemma_error_in_group(family, d, fld);
    lemma_no_error_outside(lr_findings(d), lr_fields(), fld);
    lemma_no_error_outside(scale_findings(d), scale_fields(), fld);
    lemma_no_error_outside(other_findings(family, d), other_fields(), fld);
}

/// A field of the scale group: its error is decided there.
proof fn lemma_scale_field_error(family: ModelFamily, d: RecipeData, fld: Seq<char>)
    requires
        scale_fields().contains(fld),
    ensures
        error_on(recipe_findings(family, d), fld) == error_on(scale_findings(d), fld),
{
    lemma_field_names();
    lemma_group_fields(family, d);
    lemma_error_in_group(family, d, fld);
    lemma_no_error_outside(lr_findings(d), lr_fields(), fld);
    lemma_no_error_outside(network_findings(family, d), network_fields(), fld);
    lemma_no_error_outside(other_findings(family, d), other_fields(), fld);
}

/// The learning rate: its error is decided among the rate findings.
proof fn lemma_lr_field_error(family: ModelFamily, d: RecipeData)
    ensures
        error_on(recipe_findings(family, d), "learning_rate"@) == error_on(lr_findings(d), "learning_rate"@),
{
    let fld = "learning_rate"@;
    lemma_field_names();
    lemma_group_fields(family, d);
    lemma_error_in_group(family, d, fld);
    lemma_no_error_outside(network_findings(family, d), network_fields(), fld);
    lemma_no_error_outside(scale_findings(d), scale_fields(), fld);
    lemma_no_error_outside(other_findings(family, d), other_fields(), fld);
}

/// The save interval: its error is decided among the other findings.
proof fn lemma_save_field_error(family: ModelFamily, d: RecipeData)
    ensures
        error_on(recipe_findings(family, d), "save_every_n_epochs"@) == error_on(
            other_findings(family, d),
            "save_every_n_epochs"@,
        ),
{
    let fld = "save_every_n_epochs"@;
    lemma_field_names();
    lemma_group_fields(family, d);
    lemma_error_in_group(family, d, fld);
    lemma_no_error_outside(lr_findings(d), lr_fields(), fld);
    lemma_no_error_outside(network_findings(family, d), network_fields(), fld);
    lemma_no_error_outside(scale_findings(d), scale_fields(), fld);
}

/// The range rules of the validator: each of these settings is an error
/// exactly when it is out of its range (a learning rate outside `(0, 0.1]`,
/// NaN included; network dimension in `[1, 256]`, alpha in `[1, 512]`,
/// epochs in `[1, 1000]`, batch size and gradient accumulation in `[1, 64]`,
/// resolution in `[256, 4096]`, a save interval of at least one epoch).
pub proof fn lemma_range_errors(family: ModelFamily, d: RecipeData)
    ensures
        error_on(recipe_findings(family, d), "learning_rate"@) <==> !(f64_lt(ZERO_BITS, d.learning_rate.bits)
            && f64_le(d.learning_rate.bits, TENTH_BITS)),
        error_on(recipe_findings(family, d), "network_dim"@) <==> (d.network_dim < 1 || d.network_dim > 256),
        error_on(recipe_findings(family, d), "network_alpha"@) <==> (d.network_alpha < 1 || d.network_alpha > 512),
        error_on(recipe_findings(family, d), "max_train_epochs"@) <==> (d.max_train_epochs < 1 || d.max_train_epochs
            > 1000),
        error_on(recipe_findings(family, d), "batch_size"@) <==> (d.batch_size < 1 || d.batch_size > 64),
        error_on(recipe_findings(family, d), "gradient_accumulation_steps"@) <==> (d.gradient_accumulation_steps < 1
            || d.gradient_accumulation_steps > 64),
        error_on(recipe_findings(family, d), "resolution"@) <==> (d.resolution < 256 || d.resolution > 4096),
        error_on(recipe_findings(family, d), "save_every_n_epochs"@) <==> d.save_every_n_epochs < 1,
{
    lemma_lr_field_error(family, d);
    lemma_network_field_error(family, d, "network_dim"@);
    lemma_network_field_error(family, d, "network_alpha"@);
    lemma_scale_field_error(family, d, "max_train_epochs"@);
    lemma_scale_field_error(family, d, "batch_size"@);
    lemma_scale_field_error(family, d, "gradient_accumulation_steps"@);
    lemma_scale_field_error(family, d, "resolution"@);
    lemma_save_field_error(family, d);
    assert(error_on(lr_findings(d), "learning_rate"@) <==> !(f64_lt(ZERO_BITS, d.learning_rate.bits) && f64_le(
        d.learning_rate.bits,
        TENTH_BITS,
    ))) by {
        broadcast use lemma_error_on_concat, lemma_error_on_finding, lemma_error_on_empty;
        lemma_field_names();
    }
    assert(error_on(network_findings(family, d), "network_dim"@) <==> (d.network_dim < 1 || d.network_dim > 256))
        by {
        broadcast use lemma_error_on_concat, lemma_error_on_finding;
        lemma_field_names();
    }
    assert(error_on(network_findings(family, d), "network_alpha"@) <==> (d.network_alpha < 1 || d.network_alpha
        > 512)) by {
        broadcast use lemma_error_on_concat, lemma_error_on_finding;
        lemma_field_names();
    }
    assert(error_on(scale_findings(d), "max_train_epochs"@) <==> (d.max_train_epochs < 1 || d.max_train_epochs
        > 1000)) by {
        broadcast use lemma_error_on_concat, lemma_error_on_finding;
        lemma_field_names();
    }
    assert(error_on(scale_findings(d), "batch_size"@) <==> (d.batch_size < 1 || d.batch_size > 64)) by {
        broadcast use lemma_error_on_concat, lemma_error_on_finding;
        lemma_field_names();
    }
    assert(error_on(scale_findings(d), "gradient_accumulation_steps"@) <==> (d.gradient_accumulation_steps < 1
        || d.gradient_accumulation_steps > 64)) by {
        broadcast use lemma_error_on_concat, lemma_error_on_finding;
        lemma_field_names();
    }
    assert(error_on(scale_findings(d), "resolution"@) <==> (d.resolution < 256 || d.resolution > 4096)) by {
        broadcast use lemma_error_on_concat, lemma_error_on_finding;
        lemma_field_names();
    }
    assert(error_on(other_findings(family, d), "save_every_n_epochs"@) <==> d.save_every_n_epochs < 1) by {
        broadcast use lemma_error_on_concat, lemma_error_on_finding;
        lemma_field_names();
    }
}

} // verus!
