//! Standalone permission questions, answered from host state.
//!
//! The classifier is conservative: polite wrappers are accepted, but any
//! remaining text makes the request fall through to normal intent routing, so
//! a permission preface can never swallow a real edit request.

use vstd::prelude::*;

use crate::text::{
    chars_eq_str, chars_of, ends_with, ends_with_str, equals_any, is_one_of, slice_chars,
    starts_with, starts_with_str,
};

verus! {

/// Standalone Chinese permission questions (matched on the compact text).
pub open spec fn zh_questions() -> Seq<&'static str> {
    seq![
        "怎么给你权限",
        "如何给你权限",
        "怎么给权限",
        "如何给权限",
        "怎么授权",
        "如何授权",
        "怎麼給你權限",
        "如何給你權限",
        "怎麼給權限",
        "如何給權限",
        "怎麼授權",
        "如何授權",
        "为什么只读",
        "为什么是只读",
        "为何只读",
        "為什麼唯讀",
        "為什麼是唯讀",
        "為何唯讀",
        "你能写文件吗",
        "能写文件吗",
        "能不能写文件",
        "可以写文件吗",
        "你能修改文件吗",
        "能修改文件吗",
        "可以修改文件吗",
        "你有写权限吗",
        "当前能写吗",
        "能否写入",
        "怎么切换为可写会话",
        "如何切换为可写会话",
        "怎么开启可写会话",
        "如何开启可写会话",
        "我授权你操作文件",
        "授权你操作文件",
        "我授权你修改文件",
        "允许你写文件",
        "现在是可写会话",
        "现在是可写会话吗",
        "当前是可写会话",
        "当前是可写会话吗",
        "codex是可写的为什么umadev说只读",
        "codex是可写的，为什么umadev说只读",
        "codex可写为什么umadev说只读",
        "你能寫檔案嗎",
        "能寫檔案嗎",
        "能不能寫檔案",
        "可以寫檔案嗎",
        "你能修改檔案嗎",
        "能修改檔案嗎",
        "可以修改檔案嗎",
        "你有寫入權限嗎",
        "當前能寫嗎",
        "能否寫入",
        "怎麼切換為可寫會話",
        "如何切換為可寫會話",
        "怎麼開啟可寫會話",
        "如何開啟可寫會話",
        "我授權你操作檔案",
        "授權你操作檔案",
        "我授權你修改檔案",
        "允許你寫檔案",
        "現在是可寫會話",
        "現在是可寫會話嗎",
        "當前是可寫會話",
        "當前是可寫會話嗎",
        "codex是可寫的為什麼umadev說唯讀",
        "codex是可寫的，為什麼umadev說唯讀",
        "codex可寫為什麼umadev說唯讀",
    ]
}

fn zh_questions_list() -> (r: &'static [&'static str])
    ensures
        r@ == zh_questions(),
{
    let a: &'static [&'static str; 68] = &[
        "怎么给你权限",
        "如何给你权限",
        "怎么给权限",
        "如何给权限",
        "怎么授权",
        "如何授权",
        "怎麼給你權限",
        "如何給你權限",
        "怎麼給權限",
        "如何給權限",
        "怎麼授權",
        "如何授權",
        "为什么只读",
        "为什么是只读",
        "为何只读",
        "為什麼唯讀",
        "為什麼是唯讀",
        "為何唯讀",
        "你能写文件吗",
        "能写文件吗",
        "能不能写文件",
        "可以写文件吗",
        "你能修改文件吗",
        "能修改文件吗",
        "可以修改文件吗",
        "你有写权限吗",
        "当前能写吗",
        "能否写入",
        "怎么切换为可写会话",
        "如何切换为可写会话",
        "怎么开启可写会话",
        "如何开启可写会话",
        "我授权你操作文件",
        "授权你操作文件",
        "我授权你修改文件",
        "允许你写文件",
        "现在是可写会话",
        "现在是可写会话吗",
        "当前是可写会话",
        "当前是可写会话吗",
        "codex是可写的为什么umadev说只读",
        "codex是可写的，为什么umadev说只读",
        "codex可写为什么umadev说只读",
        "你能寫檔案嗎",
        "能寫檔案嗎",
        "能不能寫檔案",
        "可以寫檔案嗎",
        "你能修改檔案嗎",
        "能修改檔案嗎",
        "可以修改檔案嗎",
        "你有寫入權限嗎",
        "當前能寫嗎",
        "能否寫入",
        "怎麼切換為可寫會話",
        "如何切換為可寫會話",
        "怎麼開啟可寫會話",
        "如何開啟可寫會話",
        "我授權你操作檔案",
        "授權你操作檔案",
        "我授權你修改檔案",
        "允許你寫檔案",
        "現在是可寫會話",
        "現在是可寫會話嗎",
        "當前是可寫會話",
        "當前是可寫會話嗎",
        "codex是可寫的為什麼umadev說唯讀",
        "codex是可寫的，為什麼umadev說唯讀",
        "codex可寫為什麼umadev說唯讀",
    ];
    let r: &'static [&'static str] = a;
    r
}
/// Standalone English permission questions (matched on the normalized text).
pub open spec fn en_questions() -> Seq<&'static str> {
    seq![
        "how do i give you permission",
        "how can i give you permission",
        "how do i grant you permission",
        "how can i grant you permission",
        "why are you read-only",
        "why are you read only",
        "can you write files",
        "can you edit files",
        "do you have write access",
        "are you able to write files",
        "how do i switch to a writable session",
        "how can i switch to a writable session",
        "how do i enable a writable session",
        "i grant you permission to edit files",
        "you have permission to edit files",
        "is this session writable",
        "is the current session writable",
        "codex is writable why does umadev say read-only",
        "codex is writable, why does umadev say read-only",
        "codex is writable why does umadev say read only",
        "codex is writable, why does umadev say read only",
    ]
}

fn en_questions_list() -> (r: &'static [&'static str])
    ensures
        r@ == en_questions(),
{
    let a: &'static [&'static str; 21] = &[
        "how do i give you permission",
        "how can i give you permission",
        "how do i grant you permission",
        "how can i grant you permission",
        "why are you read-only",
        "why are you read only",
        "can you write files",
        "can you edit files",
        "do you have write access",
        "are you able to write files",
        "how do i switch to a writable session",
        "how can i switch to a writable session",
        "how do i enable a writable session",
        "i grant you permission to edit files",
        "you have permission to edit files",
        "is this session writable",
        "is the current session writable",
        "codex is writable why does umadev say read-only",
        "codex is writable, why does umadev say read-only",
        "codex is writable why does umadev say read only",
        "codex is writable, why does umadev say read only",
    ];
    let r: &'static [&'static str] = a;
    r
}
/// Polite Chinese openers stripped before matching.
pub open spec fn zh_prefixes() -> Seq<&'static str> {
    seq![
        "请问",
        "請問",
        "麻烦告诉我",
        "麻煩告訴我",
        "请告诉我",
        "請告訴我",
        "我想知道",
        "你现在",
        "你現在",
        "你目前",
        "您现在",
        "您現在",
        "您目前",
        "现在",
        "現在",
        "目前",
    ]
}

fn zh_prefixes_list() -> (r: &'static [&'static str])
    ensures
        r@ == zh_prefixes(),
{
    let a: &'static [&'static str; 16] = &[
        "请问",
        "請問",
        "麻烦告诉我",
        "麻煩告訴我",
        "请告诉我",
        "請告訴我",
        "我想知道",
        "你现在",
        "你現在",
        "你目前",
        "您现在",
        "您現在",
        "您目前",
        "现在",
        "現在",
        "目前",
    ];
    let r: &'static [&'static str] = a;
    r
}
/// Chinese sentence-final particles stripped before matching.
pub open spec fn zh_suffixes() -> Seq<&'static str> {
    seq![
        "呢",
        "呀",
        "啊",
        "吧",
        "可以吗",
        "可以嗎",
    ]
}

fn zh_suffixes_list() -> (r: &'static [&'static str])
    ensures
        r@ == zh_suffixes(),
{
    let a: &'static [&'static str; 6] = &[
        "呢",
        "呀",
        "啊",
        "吧",
        "可以吗",
        "可以嗎",
    ];
    let r: &'static [&'static str] = a;
    r
}
/// Polite English openers stripped before matching.
pub open spec fn en_prefixes() -> Seq<&'static str> {
    seq![
        "please ",
        "could you tell me ",
        "can you tell me ",
        "i want to know ",
    ]
}

fn en_prefixes_list() -> (r: &'static [&'static str])
    ensures
        r@ == en_prefixes(),
{
    let a: &'static [&'static str; 4] = &[
        "please ",
        "could you tell me ",
        "can you tell me ",
        "i want to know ",
    ];
    let r: &'static [&'static str] = a;
    r
}
/// English trailing words stripped before matching.
pub open spec fn en_suffixes() -> Seq<&'static str> {
    seq![
        " please",
        " right now",
        " currently",
    ]
}

fn en_suffixes_list() -> (r: &'static [&'static str])
    ensures
        r@ == en_suffixes(),
{
    let a: &'static [&'static str; 3] = &[
        " please",
        " right now",
        " currently",
    ];
    let r: &'static [&'static str] = a;
    r
}

/// Remove the first prefix of `ps` (in order) that `s` starts with.
pub open spec fn strip_first_prefix(s: Seq<char>, ps: Seq<&str>) -> Seq<char>
    decreases ps.len(),
{
    if ps.len() == 0 {
        s
    } else if starts_with(s, ps[0]@) {
        s.skip(ps[0]@.len() as int)
    } else {
        strip_first_prefix(s, ps.drop_first())
    }
}

/// Remove the first suffix of `ps` (in order) that `s` ends with.
pub open spec fn strip_first_suffix(s: Seq<char>, ps: Seq<&str>) -> Seq<char>
    decreases ps.len(),
{
    if ps.len() == 0 {
        s
    } else if ends_with(s, ps[0]@) {
        s.take(s.len() - ps[0]@.len())
    } else {
        strip_first_suffix(s, ps.drop_first())
    }
}

/// A standalone permission question: the compact text is a Chinese question,
/// or the normalized text an English one, either as is or after one polite
/// opener and one trailing particle have been removed.
pub open spec fn pure_question(normalized: Seq<char>, compact: Seq<char>) -> bool {
    let zh = strip_first_suffix(strip_first_prefix(compact, zh_prefixes()), zh_suffixes());
    let en = strip_first_suffix(strip_first_prefix(normalized, en_prefixes()), en_suffixes());
    is_one_of(compact, zh_questions()) || is_one_of(normalized, en_questions()) || is_one_of(
        zh,
        zh_questions(),
    ) || is_one_of(en, en_questions())
}

fn strip_prefix_list(s: &[char], ps: &[&str]) -> (r: Vec<char>)
    ensures
        r@ == strip_first_prefix(s@, ps@),
{
    let mut k: usize = 0;
    proof {
        assert(ps@.skip(0) =~= ps@);
    }
    while k < ps.len()
        invariant
            k <= ps@.len(),
            strip_first_prefix(s@, ps@) == strip_first_prefix(s@, ps@.skip(k as int)),
        decreases ps.len() - k,
    {
        let ghost rest = ps@.skip(k as int);
        proof {
            assert(rest[0] == ps@[k as int]);
            assert(rest.drop_first() =~= ps@.skip(k + 1));
        }
        if starts_with_str(s, ps[k]) {
            let n = chars_of(ps[k]).len();
            return slice_chars(s, n, s.len());
        }
        k += 1;
    }
    proof {
        assert(ps@.skip(k as int) =~= Seq::<&str>::empty());
    }
    slice_chars(s, 0, s.len())
}

fn strip_suffix_list(s: &[char], ps: &[&str]) -> (r: Vec<char>)
    ensures
        r@ == strip_first_suffix(s@, ps@),
{
    let mut k: usize = 0;
    proof {
        assert(ps@.skip(0) =~= ps@);
    }
    while k < ps.len()
        invariant
            k <= ps@.len(),
            strip_first_suffix(s@, ps@) == strip_first_suffix(s@, ps@.skip(k as int)),
        decreases ps.len() - k,
    {
        let ghost rest = ps@.skip(k as int);
        proof {
            assert(rest[0] == ps@[k as int]);
            assert(rest.drop_first() =~= ps@.skip(k + 1));
        }
        if ends_with_str(s, ps[k]) {
            let n = chars_of(ps[k]).len();
            return slice_chars(s, 0, s.len() - n);
        }
        k += 1;
    }
    proof {
        assert(ps@.skip(k as int) =~= Seq::<&str>::empty());
    }
    slice_chars(s, 0, s.len())
}

/// [`is_pure_question`] on character slices.
pub fn pure_question_chars(normalized: &[char], compact: &[char]) -> (b: bool)
    ensures
        b == pure_question(normalized@, compact@),
{
    if equals_any(compact, zh_questions_list()) || equals_any(normalized, en_questions_list()) {
        return true;
    }
    let zh0 = strip_prefix_list(compact, zh_prefixes_list());
    let zh = strip_suffix_list(zh0.as_slice(), zh_suffixes_list());
    if equals_any(zh.as_slice(), zh_questions_list()) {
        return true;
    }
    let en0 = strip_prefix_list(normalized, en_prefixes_list());
    let en = strip_suffix_list(en0.as_slice(), en_suffixes_list());
    equals_any(en.as_slice(), en_questions_list())
}

/// Match only a standalone permission question. `normalized` is the
/// lower-cased, space-normalized request and `compact` the same text without
/// spaces.
pub fn is_pure_question(normalized: &str, compact: &str) -> (b: bool)
    ensures
        b == pure_question(normalized@, compact@),
{
    let n = chars_of(normalized);
    let c = chars_of(compact);
    pure_question_chars(n.as_slice(), c.as_slice())
}

/// Whether a read-only Codex sandbox must block a workspace-mutating route.
pub fn codex_read_only_sandbox_blocks_route(
    backend: &str,
    native_command: bool,
    execution_read_only: bool,
    mutates_workspace: bool,
    resolved_sandbox: &str,
) -> (b: bool)
    ensures
        b == (backend@ == "codex"@ && !native_command && !execution_read_only
            && mutates_workspace && resolved_sandbox@ == "read-only"@),
{
    let b = chars_of(backend);
    let s = chars_of(resolved_sandbox);
    chars_eq_str(b.as_slice(), "codex") && !native_command && !execution_read_only
        && mutates_workspace && chars_eq_str(s.as_slice(), "read-only")
}

} // verus!
