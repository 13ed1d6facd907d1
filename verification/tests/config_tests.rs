use blazingjj::env::DiffFormat;
use blazingjj::env::JJLayout;
use blazingjj::env::JjConfig;
use blazingjj::env::JjConfigBlazingjj;
use blazingjj::env::JjConfigTemplates;
use blazingjj::env::JjConfigUi;
use blazingjj::env::JjConfigUiDiff;

fn config(
    blazingjj: JjConfigBlazingjj,
    diff: JjConfigUiDiff,
    templates: JjConfigTemplates,
) -> JjConfig {
    JjConfig { blazingjj, ui: JjConfigUi::new(diff), templates }
}

#[test]
fn format_cycle_steps_to_git() {
    let next = DiffFormat::ColorWords.get_next(None);
    assert_eq!(next, DiffFormat::Git);
}

#[test]
fn format_cycle_enters_tool_when_available() {
    let next = DiffFormat::Git.get_next(Some(Some("meld".to_string())));
    assert_eq!(next, DiffFormat::DiffTool(Some("meld".to_string())));
    let unnamed = DiffFormat::Git.get_next(Some(None));
    assert_eq!(unnamed, DiffFormat::DiffTool(None));
}

#[test]
fn format_cycle_wraps_to_color_words() {
    assert_eq!(DiffFormat::Git.get_next(None), DiffFormat::ColorWords);
    assert_eq!(
        DiffFormat::DiffTool(Some("meld".to_string())).get_next(Some(Some("meld".to_string()))),
        DiffFormat::ColorWords
    );
    assert_eq!(DiffFormat::Summary.get_next(None), DiffFormat::ColorWords);
    assert_eq!(DiffFormat::Stat.get_next(None), DiffFormat::ColorWords);
}

#[test]
fn diff_format_prefers_own_table() {
    let c = config(
        JjConfigBlazingjj::new(
            Some(DiffFormat::Git),
            Some("meld".to_string()),
            None,
            JJLayout::Horizontal,
            50,
        ),
        JjConfigUiDiff::new(Some(DiffFormat::Stat), true),
        JjConfigTemplates::default(),
    );
    assert_eq!(c.diff_format(), DiffFormat::Git);
}

#[test]
fn diff_format_falls_back_to_ui_table() {
    let c = config(
        JjConfigBlazingjj::default(),
        JjConfigUiDiff::new(Some(DiffFormat::Stat), false),
        JjConfigTemplates::default(),
    );
    assert_eq!(c.diff_format(), DiffFormat::Stat);
}

#[test]
fn diff_format_falls_back_to_configured_tool() {
    let named = config(
        JjConfigBlazingjj::new(
            None,
            Some("meld".to_string()),
            None,
            JJLayout::Horizontal,
            50,
        ),
        JjConfigUiDiff::default(),
        JjConfigTemplates::default(),
    );
    assert_eq!(named.diff_format(), DiffFormat::DiffTool(Some("meld".to_string())));

    let unnamed = config(
        JjConfigBlazingjj::default(),
        JjConfigUiDiff::new(None, true),
        JjConfigTemplates::default(),
    );
    assert_eq!(unnamed.diff_format(), DiffFormat::DiffTool(None));
}

#[test]
fn diff_format_last_resort_is_color_words() {
    let c = config(
        JjConfigBlazingjj::default(),
        JjConfigUiDiff::default(),
        JjConfigTemplates::default(),
    );
    assert_eq!(c.diff_format(), DiffFormat::ColorWords);
}

#[test]
fn diff_tool_selection() {
    let named = config(
        JjConfigBlazingjj::new(
            None,
            Some("difft".to_string()),
            None,
            JJLayout::Horizontal,
            50,
        ),
        JjConfigUiDiff::default(),
        JjConfigTemplates::default(),
    );
    assert_eq!(named.diff_tool(), Some(Some("difft".to_string())));

    let unnamed = config(
        JjConfigBlazingjj::default(),
        JjConfigUiDiff::new(None, true),
        JjConfigTemplates::default(),
    );
    assert_eq!(unnamed.diff_tool(), Some(None));

    let none = config(
        JjConfigBlazingjj::default(),
        JjConfigUiDiff::default(),
        JjConfigTemplates::default(),
    );
    assert_eq!(none.diff_tool(), None);
}

#[test]
fn bookmark_template_fallbacks() {
    let own = config(
        JjConfigBlazingjj::new(
            None,
            None,
            Some("own-template".to_string()),
            JJLayout::Horizontal,
            50,
        ),
        JjConfigUiDiff::default(),
        JjConfigTemplates::new(Some("git-template".to_string())),
    );
    assert_eq!(own.bookmark_template(), "own-template".to_string());

    let git = config(
        JjConfigBlazingjj::default(),
        JjConfigUiDiff::default(),
        JjConfigTemplates::new(Some("git-template".to_string())),
    );
    assert_eq!(git.bookmark_template(), "git-template".to_string());

    let builtin = config(
        JjConfigBlazingjj::default(),
        JjConfigUiDiff::default(),
        JjConfigTemplates::default(),
    );
    assert_eq!(builtin.bookmark_template(), "'push-' ++ change_id.short()".to_string());
}

#[test]
fn layout_defaults() {
    let c = JjConfig::default();
    assert_eq!(c.layout(), JJLayout::Horizontal);
    assert_eq!(c.layout_percent(), 50);
    assert_eq!(JJLayout::default(), JJLayout::Horizontal);
    assert_eq!(DiffFormat::default(), DiffFormat::ColorWords);
}
