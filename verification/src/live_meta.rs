//! Classification of read-only questions the terminal can answer from state
//! it already owns (progress, changes, permissions).
//!
//! The classifier is bounded and trilingual: it accepts polite and natural
//! variants, but rejects multi-line, future-work and chained-action requests so
//! a status lookup cannot swallow real work.

use vstd::prelude::*;

use crate::permissions::{pure_question, pure_question_chars};
use crate::text::{
    chars_of, concat_all, concat_words, contains_any, contains_char, contains_str, equals_any,
    has_any, has_sub, is_ascii_punct, is_one_of, join_space, join_words, split_words, string_of,
    to_lowercase, trim_by, trim_whitespace, trim_ws, unicode_lowercase, words, ascii_punctuation,
    lemma_trim_start_at, lemma_trim_end_at, slice_chars,
};

verus! {

/// Read-only questions answered from live state.
#[derive(Debug, Clone, Copy, PartialEq, Eq, Structural)]
pub enum LiveMetaIntent {
    Progress,
    Changes,
    Permissions,
}

/// Exact questions about what the last turn changed.
pub open spec fn changes_phrases() -> Seq<&'static str> {
    seq![
        "这次改了什么",
        "这次改了啥",
        "这次都改了什么",
        "这次都改了啥",
        "这次改动都做了什么",
        "这次改动都做了啥",
        "本次改了什么",
        "本次改了啥",
        "本次改动",
        "本轮改动",
        "这轮改动",
        "改了哪些文件",
        "这次改了哪些文件",
        "這次改了什麼",
        "這次都改了什麼",
        "這次改動都做了什麼",
        "本次改動",
        "本輪改動",
        "這輪改動",
        "改了哪些檔案",
        "這次改了哪些檔案",
        "what changed",
        "what did you change",
        "what have you changed",
        "what changes did you make",
        "what files changed",
        "show me the changes",
        "what did this turn change",
    ]
}

fn changes_phrases_list() -> (r: &'static [&'static str])
    ensures
        r@ == changes_phrases(),
{
    let a: &'static [&'static str; 28] = &[
        "这次改了什么",
        "这次改了啥",
        "这次都改了什么",
        "这次都改了啥",
        "这次改动都做了什么",
        "这次改动都做了啥",
        "本次改了什么",
        "本次改了啥",
        "本次改动",
        "本轮改动",
        "这轮改动",
        "改了哪些文件",
        "这次改了哪些文件",
        "這次改了什麼",
        "這次都改了什麼",
        "這次改動都做了什麼",
        "本次改動",
        "本輪改動",
        "這輪改動",
        "改了哪些檔案",
        "這次改了哪些檔案",
        "what changed",
        "what did you change",
        "what have you changed",
        "what changes did you make",
        "what files changed",
        "show me the changes",
        "what did this turn change",
    ];
    let r: &'static [&'static str] = a;
    r
}
/// Exact questions about progress.
pub open spec fn progress_phrases() -> Seq<&'static str> {
    seq![
        "当前进度",
        "目前进度",
        "现在进度",
        "进度怎么样",
        "进度怎么样了",
        "现在做到哪了",
        "做到哪了",
        "进行到哪了",
        "现在在做什么",
        "当前在做什么",
        "任务进度",
        "全部完成了吗",
        "全部都完成了吗",
        "都完成了吗",
        "所有问题都解决了吗",
        "问题全部解决了吗",
        "还剩多少任务",
        "还剩什么任务",
        "还有什么没完成",
        "还差多少",
        "距离完成还差多少",
        "當前進度",
        "目前進度",
        "現在進度",
        "進度怎麼樣",
        "進度怎麼樣了",
        "現在做到哪了",
        "進行到哪了",
        "現在在做什麼",
        "當前在做什麼",
        "任務進度",
        "全部完成了嗎",
        "全部都完成了嗎",
        "都完成了嗎",
        "所有問題都解決了嗎",
        "問題全部解決了嗎",
        "還剩多少任務",
        "還剩什麼任務",
        "還有什麼沒完成",
        "還差多少",
        "距離完成還差多少",
        "current progress",
        "progress update",
        "what's the progress",
        "what is the progress",
        "where are we",
        "where are you at",
        "what are you doing",
        "what are you working on",
        "current status",
        "status update",
        "is everything done",
        "are we done",
        "what remains",
        "what is left",
        "how much is left",
    ]
}

fn progress_phrases_list() -> (r: &'static [&'static str])
    ensures
        r@ == progress_phrases(),
{
    let a: &'static [&'static str; 56] = &[
        "当前进度",
        "目前进度",
        "现在进度",
        "进度怎么样",
        "进度怎么样了",
        "现在做到哪了",
        "做到哪了",
        "进行到哪了",
        "现在在做什么",
        "当前在做什么",
        "任务进度",
        "全部完成了吗",
        "全部都完成了吗",
        "都完成了吗",
        "所有问题都解决了吗",
        "问题全部解决了吗",
        "还剩多少任务",
        "还剩什么任务",
        "还有什么没完成",
        "还差多少",
        "距离完成还差多少",
        "當前進度",
        "目前進度",
        "現在進度",
        "進度怎麼樣",
        "進度怎麼樣了",
        "現在做到哪了",
        "進行到哪了",
        "現在在做什麼",
        "當前在做什麼",
        "任務進度",
        "全部完成了嗎",
        "全部都完成了嗎",
        "都完成了嗎",
        "所有問題都解決了嗎",
        "問題全部解決了嗎",
        "還剩多少任務",
        "還剩什麼任務",
        "還有什麼沒完成",
        "還差多少",
        "距離完成還差多少",
        "current progress",
        "progress update",
        "what's the progress",
        "what is the progress",
        "where are we",
        "where are you at",
        "what are you doing",
        "what are you working on",
        "current status",
        "status update",
        "is everything done",
        "are we done",
        "what remains",
        "what is left",
        "how much is left",
    ];
    let r: &'static [&'static str] = a;
    r
}
/// Chinese markers of a second, chained work request (matched on the compact text).
pub open spec fn chained_zh() -> Seq<&'static str> {
    seq![
        "然后修",
        "然后改",
        "然后写",
        "然后跑",
        "然后测试",
        "然後修",
        "然後改",
        "然後寫",
        "然後測試",
        "并修",
        "并改",
        "并写",
        "并补",
        "并测试",
        "並修",
        "並改",
        "並寫",
        "並補",
        "並測試",
        "顺便修",
        "顺便改",
        "順便修",
        "順便改",
        "接着修",
        "接着改",
        "接著修",
        "接著改",
    ]
}

fn chained_zh_list() -> (r: &'static [&'static str])
    ensures
        r@ == chained_zh(),
{
    let a: &'static [&'static str; 27] = &[
        "然后修",
        "然后改",
        "然后写",
        "然后跑",
        "然后测试",
        "然後修",
        "然後改",
        "然後寫",
        "然後測試",
        "并修",
        "并改",
        "并写",
        "并补",
        "并测试",
        "並修",
        "並改",
        "並寫",
        "並補",
        "並測試",
        "顺便修",
        "顺便改",
        "順便修",
        "順便改",
        "接着修",
        "接着改",
        "接著修",
        "接著改",
    ];
    let r: &'static [&'static str] = a;
    r
}
/// English markers of a second, chained work request.
pub open spec fn chained_en() -> Seq<&'static str> {
    seq![
        " and then ",
        " then fix",
        " then update",
        " then edit",
        " then run",
        " and fix",
        " and update",
        " and edit",
        " and run",
        " also fix",
        " also update",
    ]
}

fn chained_en_list() -> (r: &'static [&'static str])
    ensures
        r@ == chained_en(),
{
    let a: &'static [&'static str; 11] = &[
        " and then ",
        " then fix",
        " then update",
        " then edit",
        " then run",
        " and fix",
        " and update",
        " and edit",
        " and run",
        " also fix",
        " also update",
    ];
    let r: &'static [&'static str] = a;
    r
}
/// Chinese words that scope a question to this turn.
pub open spec fn zh_scope() -> Seq<&'static str> {
    seq![
        "这次",
        "本次",
        "此次",
        "这轮",
        "本轮",
        "刚才",
        "刚刚",
        "這次",
        "此次",
        "這輪",
        "本輪",
        "剛才",
        "剛剛",
    ]
}

fn zh_scope_list() -> (r: &'static [&'static str])
    ensures
        r@ == zh_scope(),
{
    let a: &'static [&'static str; 13] = &[
        "这次",
        "本次",
        "此次",
        "这轮",
        "本轮",
        "刚才",
        "刚刚",
        "這次",
        "此次",
        "這輪",
        "本輪",
        "剛才",
        "剛剛",
    ];
    let r: &'static [&'static str] = a;
    r
}
/// Chinese words for a completed change.
pub open spec fn zh_completed_change() -> Seq<&'static str> {
    seq![
        "改了",
        "修改了",
        "更新了",
        "变更了",
        "變更了",
        "改动",
        "改動",
        "变更",
        "變更",
        "的修改",
        "的更新",
    ]
}

fn zh_completed_change_list() -> (r: &'static [&'static str])
    ensures
        r@ == zh_completed_change(),
{
    let a: &'static [&'static str; 11] = &[
        "改了",
        "修改了",
        "更新了",
        "变更了",
        "變更了",
        "改动",
        "改動",
        "变更",
        "變更",
        "的修改",
        "的更新",
    ];
    let r: &'static [&'static str] = a;
    r
}
/// Chinese question words about changes.
pub open spec fn zh_change_question() -> Seq<&'static str> {
    seq![
        "什么",
        "什麼",
        "啥",
        "哪些",
        "哪几",
        "哪幾",
        "改了些什",
        "做了些什",
    ]
}

fn zh_change_question_list() -> (r: &'static [&'static str])
    ensures
        r@ == zh_change_question(),
{
    let a: &'static [&'static str; 8] = &[
        "什么",
        "什麼",
        "啥",
        "哪些",
        "哪几",
        "哪幾",
        "改了些什",
        "做了些什",
    ];
    let r: &'static [&'static str] = a;
    r
}
/// Chinese words asking to present or summarize.
pub open spec fn zh_present() -> Seq<&'static str> {
    seq![
        "说下",
        "說下",
        "说说",
        "說說",
        "讲下",
        "講下",
        "告诉我",
        "告訴我",
        "总结",
        "總結",
        "列出",
        "展示",
        "说明",
        "說明",
        "介绍",
        "介紹",
    ]
}

fn zh_present_list() -> (r: &'static [&'static str])
    ensures
        r@ == zh_present(),
{
    let a: &'static [&'static str; 16] = &[
        "说下",
        "說下",
        "说说",
        "說說",
        "讲下",
        "講下",
        "告诉我",
        "告訴我",
        "总结",
        "總結",
        "列出",
        "展示",
        "说明",
        "說明",
        "介绍",
        "介紹",
    ];
    let r: &'static [&'static str] = a;
    r
}
/// Chinese words for a change still to be made.
pub open spec fn zh_future_change() -> Seq<&'static str> {
    seq![
        "要改",
        "需改",
        "需要",
        "应该",
        "應該",
        "计划",
        "計劃",
        "打算",
        "要求",
        "目标",
        "目標",
        "任务",
        "任務",
    ]
}

fn zh_future_change_list() -> (r: &'static [&'static str])
    ensures
        r@ == zh_future_change(),
{
    let a: &'static [&'static str; 13] = &[
        "要改",
        "需改",
        "需要",
        "应该",
        "應該",
        "计划",
        "計劃",
        "打算",
        "要求",
        "目标",
        "目標",
        "任务",
        "任務",
    ];
    let r: &'static [&'static str] = a;
    r
}
/// English phrases for a change still to be made.
pub open spec fn en_future_change() -> Seq<&'static str> {
    seq![
        "should change",
        "should update",
        "need to change",
        "need to update",
        "plan to change",
        "changes to make",
        "change requirements",
    ]
}

fn en_future_change_list() -> (r: &'static [&'static str])
    ensures
        r@ == en_future_change(),
{
    let a: &'static [&'static str; 7] = &[
        "should change",
        "should update",
        "need to change",
        "need to update",
        "plan to change",
        "changes to make",
        "change requirements",
    ];
    let r: &'static [&'static str] = a;
    r
}
/// English questions about completed changes.
pub open spec fn en_change_question() -> Seq<&'static str> {
    seq![
        "what changed",
        "what did you change",
        "what have you changed",
        "what you changed",
        "what files did you change",
        "which files did you change",
        "what did you update",
        "changes you made",
        "changes did you make",
        "summarize the changes",
        "summarise the changes",
        "summary of the changes",
        "show me the changes",
        "list the changes",
        "what was changed",
        "what got changed",
    ]
}

fn en_change_question_list() -> (r: &'static [&'static str])
    ensures
        r@ == en_change_question(),
{
    let a: &'static [&'static str; 16] = &[
        "what changed",
        "what did you change",
        "what have you changed",
        "what you changed",
        "what files did you change",
        "which files did you change",
        "what did you update",
        "changes you made",
        "changes did you make",
        "summarize the changes",
        "summarise the changes",
        "summary of the changes",
        "show me the changes",
        "list the changes",
        "what was changed",
        "what got changed",
    ];
    let r: &'static [&'static str] = a;
    r
}
/// Chinese words for progress.
pub open spec fn zh_progress() -> Seq<&'static str> {
    seq![
        "进度",
        "進度",
        "进展",
        "進展",
    ]
}

fn zh_progress_list() -> (r: &'static [&'static str])
    ensures
        r@ == zh_progress(),
{
    let a: &'static [&'static str; 4] = &[
        "进度",
        "進度",
        "进展",
        "進展",
    ];
    let r: &'static [&'static str] = a;
    r
}
/// Chinese question words about progress.
pub open spec fn zh_progress_question() -> Seq<&'static str> {
    seq![
        "怎么样",
        "怎麼樣",
        "如何",
        "到哪",
        "哪一步",
        "多少",
        "什么进展",
        "什麼進展",
        "啥进展",
        "啥進展",
        "有什么进展",
        "有什麼進展",
        "什么情况",
        "什麼情況",
        "啥情况",
        "嗎",
        "吗",
    ]
}

fn zh_progress_question_list() -> (r: &'static [&'static str])
    ensures
        r@ == zh_progress_question(),
{
    let a: &'static [&'static str; 17] = &[
        "怎么样",
        "怎麼樣",
        "如何",
        "到哪",
        "哪一步",
        "多少",
        "什么进展",
        "什麼進展",
        "啥进展",
        "啥進展",
        "有什么进展",
        "有什麼進展",
        "什么情况",
        "什麼情況",
        "啥情况",
        "嗎",
        "吗",
    ];
    let r: &'static [&'static str] = a;
    r
}
/// Chinese phrases asking how far the work got.
pub open spec fn zh_progress_where() -> Seq<&'static str> {
    seq![
        "做到哪",
        "进行到哪",
        "進行到哪",
        "处理到哪",
        "處理到哪",
        "弄到哪",
    ]
}

fn zh_progress_where_list() -> (r: &'static [&'static str])
    ensures
        r@ == zh_progress_where(),
{
    let a: &'static [&'static str; 6] = &[
        "做到哪",
        "进行到哪",
        "進行到哪",
        "处理到哪",
        "處理到哪",
        "弄到哪",
    ];
    let r: &'static [&'static str] = a;
    r
}
/// Chinese names of work objects (components, pages, code, ...).
pub open spec fn zh_work_object() -> Seq<&'static str> {
    seq![
        "组件",
        "組件",
        "页面",
        "頁面",
        "代码",
        "代碼",
        "函数",
        "函數",
        "接口",
        "文件",
        "檔案",
        "配置",
        "测试",
        "測試",
    ]
}

fn zh_work_object_list() -> (r: &'static [&'static str])
    ensures
        r@ == zh_work_object(),
{
    let a: &'static [&'static str; 14] = &[
        "组件",
        "組件",
        "页面",
        "頁面",
        "代码",
        "代碼",
        "函数",
        "函數",
        "接口",
        "文件",
        "檔案",
        "配置",
        "测试",
        "測試",
    ];
    let r: &'static [&'static str] = a;
    r
}
/// English progress questions.
pub open spec fn en_progress() -> Seq<&'static str> {
    seq![
        "how is it going",
        "how far along",
        "what's the progress",
        "what is the progress",
        "current progress",
        "progress update",
        "where are we",
        "where are you at",
        "what are you doing",
        "what are you working on",
        "current status",
        "status update",
        "what stage are we",
        "what stage are you",
        "what step are we on",
        "what step are you on",
        "tell me the current progress",
        "give me a progress update",
        "show me the current progress",
    ]
}

fn en_progress_list() -> (r: &'static [&'static str])
    ensures
        r@ == en_progress(),
{
    let a: &'static [&'static str; 19] = &[
        "how is it going",
        "how far along",
        "what's the progress",
        "what is the progress",
        "current progress",
        "progress update",
        "where are we",
        "where are you at",
        "what are you doing",
        "what are you working on",
        "current status",
        "status update",
        "what stage are we",
        "what stage are you",
        "what step are we on",
        "what step are you on",
        "tell me the current progress",
        "give me a progress update",
        "show me the current progress",
    ];
    let r: &'static [&'static str] = a;
    r
}
/// English question and request openers.
pub open spec fn en_progress_prompt() -> Seq<&'static str> {
    seq![
        "what",
        "where",
        "how",
        "tell me",
        "show me",
        "give me",
        "can you",
        "could you",
        "please",
    ]
}

fn en_progress_prompt_list() -> (r: &'static [&'static str])
    ensures
        r@ == en_progress_prompt(),
{
    let a: &'static [&'static str; 9] = &[
        "what",
        "where",
        "how",
        "tell me",
        "show me",
        "give me",
        "can you",
        "could you",
        "please",
    ];
    let r: &'static [&'static str] = a;
    r
}
/// English names of work objects.
pub open spec fn en_work_object() -> Seq<&'static str> {
    seq![
        " component",
        " page",
        " function",
        " endpoint",
        " widget",
        " source file",
        " code",
        " api",
    ]
}

fn en_work_object_list() -> (r: &'static [&'static str])
    ensures
        r@ == en_work_object(),
{
    let a: &'static [&'static str; 8] = &[
        " component",
        " page",
        " function",
        " endpoint",
        " widget",
        " source file",
        " code",
        " api",
    ];
    let r: &'static [&'static str] = a;
    r
}

/// Characters stripped from both ends of a request before matching: ASCII
/// punctuation and the common full-width CJK punctuation marks.
pub open spec fn is_meta_trim(c: char) -> bool {
    is_ascii_punct(c) || c == '，' || c == '。' || c == '？' || c == '！' || c == '：' || c == '；'
        || c == '、' || c == '～'
}

pub open spec fn meta_trim_pred() -> spec_fn(char) -> bool {
    |c: char| is_meta_trim(c)
}

/// The request trimmed and lower-cased.
pub open spec fn lowered(text: Seq<char>) -> Seq<char> {
    unicode_lowercase(trim_ws(text))
}

/// A lowered request without surrounding punctuation, its words joined by
/// single spaces.
pub open spec fn normalized_from(lower: Seq<char>) -> Seq<char> {
    join_space(words(trim_by(lower, meta_trim_pred())))
}

/// The normalized request with every space removed.
pub open spec fn compact_from(lower: Seq<char>) -> Seq<char> {
    concat_all(words(normalized_from(lower)))
}

/// The lowered request without surrounding punctuation, its words joined by
/// single spaces.
pub open spec fn normalized_text(text: Seq<char>) -> Seq<char> {
    normalized_from(lowered(text))
}

/// The normalized request with every space removed.
pub open spec fn compact_text(text: Seq<char>) -> Seq<char> {
    compact_from(lowered(text))
}

/// A request that also asks for further work.
pub open spec fn chained_work(n: Seq<char>, c: Seq<char>) -> bool {
    has_any(c, chained_zh()) || has_any(n, chained_en())
}

/// A Chinese question about the changes already made.
pub open spec fn zh_changes_question(c: Seq<char>) -> bool {
    !has_any(c, zh_future_change()) && has_any(c, zh_completed_change()) && (has_any(
        c,
        zh_change_question(),
    ) || has_any(c, zh_present())) && (has_any(c, zh_scope()) || has_sub(c, "你改了"@) || has_sub(
        c,
        "您改了"@,
    ))
}

/// An English question about the changes already made.
pub open spec fn en_changes_question(n: Seq<char>) -> bool {
    has_any(n, en_change_question()) && !has_any(n, en_future_change())
}

/// A Chinese question about progress.
pub open spec fn zh_progress_request(c: Seq<char>) -> bool {
    !has_any(c, zh_work_object()) && ((has_any(c, zh_progress()) && (has_any(
        c,
        zh_progress_question(),
    ) || has_any(c, zh_present()))) || has_any(c, zh_progress_where()))
}

/// An English question about progress.
pub open spec fn en_progress_request(n: Seq<char>) -> bool {
    has_any(n, en_progress()) && has_any(n, en_progress_prompt()) && !has_any(n, en_work_object())
}

/// The intent of a request `text` whose trimmed, lower-cased form is
/// `lower`, rule by rule in priority order. A multiline or over-long request
/// is never a status lookup, not even when it spells a listed phrase.
pub open spec fn classify_from(text: Seq<char>, lower: Seq<char>) -> Option<LiveMetaIntent> {
    let n = normalized_from(lower);
    let c = compact_from(lower);
    if text.contains('\n') || text.contains('\r') || n.len() > 120 {
        None
    } else if is_one_of(n, changes_phrases()) {
        Some(LiveMetaIntent::Changes)
    } else if is_one_of(n, progress_phrases()) {
        Some(LiveMetaIntent::Progress)
    } else if chained_work(n, c) {
        None
    } else if pure_question(n, c) {
        Some(LiveMetaIntent::Permissions)
    } else if zh_changes_question(c) || en_changes_question(n) {
        Some(LiveMetaIntent::Changes)
    } else if zh_progress_request(c) || en_progress_request(n) {
        Some(LiveMetaIntent::Progress)
    } else {
        None
    }
}

/// The intent of a request.
pub open spec fn classify(text: Seq<char>) -> Option<LiveMetaIntent> {
    classify_from(text, lowered(text))
}

fn meta_trim(c: char) -> (b: bool)
    ensures
        b == is_meta_trim(c),
{
    ascii_punctuation(c) || c == '，' || c == '。' || c == '？' || c == '！' || c == '：' || c == '；'
        || c == '、' || c == '～'
}

/// `trim_matches` with [`is_meta_trim`].
fn trim_meta(s: &[char]) -> (r: Vec<char>)
    ensures
        r@ == trim_by(s@, meta_trim_pred()),
{
    let ghost p = meta_trim_pred();
    let mut a: usize = 0;
    while a < s.len() && meta_trim(s[a])
        invariant
            a <= s@.len(),
            forall|i: int| 0 <= i < a ==> is_meta_trim(#[trigger] s@[i]),
        decreases s.len() - a,
    {
        a += 1;
    }
    let mut b: usize = s.len();
    while b > a && meta_trim(s[b - 1])
        invariant
            a <= b <= s@.len(),
            forall|i: int| b <= i < s@.len() ==> is_meta_trim(#[trigger] s@[i]),
        decreases b - a,
    {
        b -= 1;
    }
    proof {
        lemma_trim_start_at(s@, p, a as int);
        let t = s@.skip(a as int);
        assert forall|i: int| b - a <= i < t.len() implies p(#[trigger] t[i]) by {
            assert(t[i] == s@[i + a]);
        }
        if b > a {
            assert(t[b - a - 1] == s@[b - 1]);
        }
        lemma_trim_end_at(t, p, b - a);
        assert(t.take(b - a) =~= s@.subrange(a as int, b as int));
    }
    slice_chars(s, a, b)
}

/// Normalize a lowered request: strip surrounding punctuation and join its
/// words by single spaces.
fn normalize_lowered(lower: &str) -> (r: Vec<char>)
    ensures
        r@ == normalized_from(lower@),
{
    let chars = chars_of(lower);
    let stripped = trim_meta(chars.as_slice());
    let ws = split_words(stripped.as_slice());
    join_words(&ws)
}

/// Classify a request whose trimmed, lower-cased form is `lower` (see
/// [`classify_from`]).
pub fn classify_lowered(text: &str, lower: &str) -> (r: Option<LiveMetaIntent>)
    ensures
        r == classify_from(text@, lower@),
{
    let normalized = normalize_lowered(lower);
    let raw = chars_of(text);
    if contains_char(raw.as_slice(), '\n') || contains_char(raw.as_slice(), '\r')
        || normalized.len() > 120 {
        return None;
    }
    if equals_any(normalized.as_slice(), changes_phrases_list()) {
        return Some(LiveMetaIntent::Changes);
    }
    if equals_any(normalized.as_slice(), progress_phrases_list()) {
        return Some(LiveMetaIntent::Progress);
    }
    let ws = split_words(normalized.as_slice());
    let compact = concat_words(&ws);
    let n = normalized.as_slice();
    let c = compact.as_slice();
    if contains_any(c, chained_zh_list()) || contains_any(n, chained_en_list()) {
        return None;
    }
    if pure_question_chars(n, c) {
        return Some(LiveMetaIntent::Permissions);
    }
    let zh_changes = !contains_any(c, zh_future_change_list()) && contains_any(
        c,
        zh_completed_change_list(),
    ) && (contains_any(c, zh_change_question_list()) || contains_any(c, zh_present_list())) && (
    contains_any(c, zh_scope_list()) || contains_str(c, "你改了") || contains_str(c, "您改了"));
    let en_changes = contains_any(n, en_change_question_list()) && !contains_any(
        n,
        en_future_change_list(),
    );
    if zh_changes || en_changes {
        return Some(LiveMetaIntent::Changes);
    }
    let zh_progress = !contains_any(c, zh_work_object_list()) && ((contains_any(
        c,
        zh_progress_list(),
    ) && (contains_any(c, zh_progress_question_list()) || contains_any(c, zh_present_list())))
        || contains_any(c, zh_progress_where_list()));
    let en_progress = contains_any(n, en_progress_list()) && contains_any(
        n,
        en_progress_prompt_list(),
    ) && !contains_any(n, en_work_object_list());
    if zh_progress || en_progress {
        Some(LiveMetaIntent::Progress)
    } else {
        None
    }
}

/// Classify a request as a read-only live-state question, or `None` when it
/// belongs to the normal intent router. Polite and natural variants are
/// accepted; multiline, over-long, future-work and chained-action requests
/// are rejected, so a status lookup cannot swallow real work.
pub fn classify_live_meta(text: &str) -> (r: Option<LiveMetaIntent>)
    ensures
        r == classify(text@),
        (text@.contains('\n') || text@.contains('\r')) ==> r is None,
{
    let raw = chars_of(text);
    let trimmed = trim_whitespace(raw.as_slice());
    let trimmed_str = string_of(trimmed.as_slice());
    let lower = to_lowercase(trimmed_str.as_str());
    classify_lowered(text, lower.as_str())
}

/// A Chinese question about what the assistant itself changed ("你改了什么？")
/// is a changes question even without a turn-scope word such as 这次: when
/// the compact request holds 改了, a question word (什么, 什麼, 啥 or 哪些)
/// and 你改了 or 您改了, and asks for no future change, no chained work and
/// no permission, and it is a single line that is not a progress phrase,
/// it is classified as `Changes`.
pub proof fn law_change_question_to_the_assistant(text: Seq<char>, lower: Seq<char>)
    requires
        !text.contains('\n'),
        !text.contains('\r'),
        normalized_from(lower).len() <= 120,
        !is_one_of(normalized_from(lower), progress_phrases()),
        !chained_work(normalized_from(lower), compact_from(lower)),
        !pure_question(normalized_from(lower), compact_from(lower)),
        !has_any(compact_from(lower), zh_future_change()),
        has_sub(compact_from(lower), "改了"@),
        has_sub(compact_from(lower), "什么"@) || has_sub(compact_from(lower), "什麼"@) || has_sub(
            compact_from(lower),
            "啥"@,
        ) || has_sub(compact_from(lower), "哪些"@),
        has_sub(compact_from(lower), "你改了"@) || has_sub(compact_from(lower), "您改了"@),
    ensures
        classify_from(text, lower) == Some(LiveMetaIntent::Changes),
{
    let c = compact_from(lower);
    assert(zh_completed_change()[0]@ == "改了"@);
    assert(has_sub(c, zh_completed_change()[0]@));
    if has_sub(c, "什么"@) {
        assert(zh_change_question()[0]@ == "什么"@);
        assert(has_sub(c, zh_change_question()[0]@));
    } else if has_sub(c, "什麼"@) {
        assert(zh_change_question()[1]@ == "什麼"@);
        assert(has_sub(c, zh_change_question()[1]@));
    } else if has_sub(c, "啥"@) {
        assert(zh_change_question()[2]@ == "啥"@);
        assert(has_sub(c, zh_change_question()[2]@));
    } else {
        assert(zh_change_question()[3]@ == "哪些"@);
        assert(has_sub(c, zh_change_question()[3]@));
    }
}

} // verus!
