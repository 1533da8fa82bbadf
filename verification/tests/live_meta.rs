use umadev::live_meta::{classify_live_meta, classify_lowered, LiveMetaIntent};

#[test]
fn classifier_is_bounded_and_trilingual() {
    for (text, expected) in [
        ("这次改动都做了啥？", LiveMetaIntent::Changes),
        ("能说下这次都改了哪些内容吗？", LiveMetaIntent::Changes),
        ("你这次都改了些什么？", LiveMetaIntent::Changes),
        ("本輪改動", LiveMetaIntent::Changes),
        ("what did you change?", LiveMetaIntent::Changes),
        (
            "could you tell me what changed this time?",
            LiveMetaIntent::Changes,
        ),
        ("what files did you change?", LiveMetaIntent::Changes),
        ("当前进度", LiveMetaIntent::Progress),
        ("现在进展到哪一步啦？", LiveMetaIntent::Progress),
        ("目前什么进展了", LiveMetaIntent::Progress),
        ("现在啥进展了？", LiveMetaIntent::Progress),
        ("当前有什么进展", LiveMetaIntent::Progress),
        ("全部完成了吗？", LiveMetaIntent::Progress),
        ("所有问题都解决了吗？", LiveMetaIntent::Progress),
        ("还剩什么任务？", LiveMetaIntent::Progress),
        ("目前有什麼進展了？", LiveMetaIntent::Progress),
        ("全部完成了嗎？", LiveMetaIntent::Progress),
        ("目前進度？", LiveMetaIntent::Progress),
        ("what are you working on?", LiveMetaIntent::Progress),
        ("is everything done?", LiveMetaIntent::Progress),
        ("what remains?", LiveMetaIntent::Progress),
        ("how far along are you?", LiveMetaIntent::Progress),
        (
            "could you give me a current progress update?",
            LiveMetaIntent::Progress,
        ),
        ("怎么给你权限？", LiveMetaIntent::Permissions),
        ("为什么是只读？", LiveMetaIntent::Permissions),
        ("你现在能修改文件吗？", LiveMetaIntent::Permissions),
        ("请问你能写文件吗？", LiveMetaIntent::Permissions),
        ("怎麼給你權限？", LiveMetaIntent::Permissions),
        ("為什麼是唯讀？", LiveMetaIntent::Permissions),
        (
            "how can I grant you permission?",
            LiveMetaIntent::Permissions,
        ),
        ("do you have write access?", LiveMetaIntent::Permissions),
    ] {
        assert_eq!(classify_live_meta(text), Some(expected), "{text}");
    }
    for mutation in [
        "修改当前进度组件",
        "当前进度组件如何修改",
        "把本次改动写进 CHANGELOG",
        "这次修改有哪些要求",
        "总结本次改动并补测试",
        "show me the changes and then fix the tests",
        "what changes should we make?",
        "build a current status component",
        "修改权限管理页面",
        "修复只读模式切换",
        "把权限说明写入 README",
        "为什么只读，然后修复登录",
        "你能写文件吗？请修改登录页面",
        "can you write files? please update the login page",
    ] {
        assert_eq!(classify_live_meta(mutation), None, "{mutation}");
    }
}

#[test]
fn blank_and_unrelated_text_is_not_a_meta_question() {
    assert_eq!(classify_live_meta(""), None);
    assert_eq!(classify_live_meta("   "), None);
    assert_eq!(classify_live_meta("please add a login page"), None);
}

#[test]
fn multiline_request_is_never_a_status_lookup() {
    assert_eq!(classify_live_meta("current\nprogress"), None);
    assert_eq!(classify_live_meta("what\r\nchanged"), None);
    assert_eq!(classify_live_meta("当前进度\n"), None);
    assert_eq!(classify_live_meta("current progress"), Some(LiveMetaIntent::Progress));
}

#[test]
fn classification_works_on_the_lowered_request() {
    assert_eq!(classify_lowered("  What Changed?  ", "what changed?"), Some(LiveMetaIntent::Changes));
    assert_eq!(classify_lowered("current\nprogress", "current\nprogress"), None);
    assert_eq!(classify_lowered("x", "当前进度"), Some(LiveMetaIntent::Progress));
    assert_eq!(classify_lowered("x", "fix the bug"), None);
}
