//! Output formats and user configuration.
//!
//! [`DiffFormat`] names the rendering a commit's details are requested in;
//! the tool variant delegates rendering to an external program and is the
//! only format whose output depends on the panel width. [`JjConfig`] holds
//! the configuration values this crate's decisions read, as plain values;
//! reading and parsing the configuration itself happens outside the
//! library.

use vstd::prelude::*;

verus! {

/// Mathematical value of a [`DiffFormat`].
#[verifier::ext_equal]
pub ghost enum FormatView {
    ColorWords,
    Git,
    DiffTool(Option<Seq<char>>),
    Summary,
    Stat,
}

/// Formatting used to render a commit's details. The tool variant carries
/// the name of the external program, or none for the user's default tool.
#[derive(Debug)]
pub enum DiffFormat {
    ColorWords,
    Git,
    DiffTool(Option<String>),
    Summary,
    Stat,
}

impl View for DiffFormat {
    type V = FormatView;

    open spec fn view(&self) -> FormatView {
        match self {
            DiffFormat::ColorWords => FormatView::ColorWords,
            DiffFormat::Git => FormatView::Git,
            DiffFormat::DiffTool(t) => FormatView::DiffTool(t.deep_view()),
            DiffFormat::Summary => FormatView::Summary,
            DiffFormat::Stat => FormatView::Stat,
        }
    }
}

impl Clone for DiffFormat {
    fn clone(&self) -> (r: Self)
        ensures
            r@ == self@,
    {
        match self {
            DiffFormat::ColorWords => DiffFormat::ColorWords,
            DiffFormat::Git => DiffFormat::Git,
            DiffFormat::DiffTool(t) => DiffFormat::DiffTool(
                match t {
                    Some(s) => Some(s.clone()),
                    None => None,
                },
            ),
            DiffFormat::Summary => DiffFormat::Summary,
            DiffFormat::Stat => DiffFormat::Stat,
        }
    }
}

impl PartialEq for DiffFormat {
    fn eq(&self, other: &Self) -> (r: bool)
        ensures
            r == (self@ == other@),
    {
        match (self, other) {
            (DiffFormat::ColorWords, DiffFormat::ColorWords) => true,
            (DiffFormat::Git, DiffFormat::Git) => true,
            (DiffFormat::DiffTool(a), DiffFormat::DiffTool(b)) => match (a, b) {
                (None, None) => true,
                (Some(x), Some(y)) => *x == *y,
                _ => false,
            },
            (DiffFormat::Summary, DiffFormat::Summary) => true,
            (DiffFormat::Stat, DiffFormat::Stat) => true,
            _ => false,
        }
    }
}

impl vstd::std_specs::cmp::PartialEqSpecImpl for DiffFormat {
    open spec fn obeys_eq_spec() -> bool {
        true
    }

    open spec fn eq_spec(&self, other: &Self) -> bool {
        self@ == other@
    }
}

impl Default for DiffFormat {
    fn default() -> (r: Self)
        ensures
            r@ == FormatView::ColorWords,
    {
        DiffFormat::ColorWords
    }
}

/// The format that follows `f` when the user cycles formats: color-words
/// steps to git; git steps to the diff tool when one is available and back
/// to color-words otherwise; every other format steps back to color-words.
pub open spec fn get_next_spec(f: FormatView, diff_tool: Option<Option<Seq<char>>>) -> FormatView {
    match f {
        FormatView::ColorWords => FormatView::Git,
        FormatView::Git => match diff_tool {
            Some(t) => FormatView::DiffTool(t),
            None => FormatView::ColorWords,
        },
        _ => FormatView::ColorWords,
    }
}

impl DiffFormat {
    /// Cycle to the next format, entering the diff-tool format only when
    /// `diff_tool` says one is available.
    pub fn get_next(&self, diff_tool: Option<Option<String>>) -> (r: DiffFormat)
        ensures
            r@ == get_next_spec(self@, diff_tool.deep_view()),
    {
        match self {
            DiffFormat::ColorWords => DiffFormat::Git,
            DiffFormat::Git => {
                if let Some(diff_tool) = diff_tool {
                    DiffFormat::DiffTool(diff_tool)
                } else {
                    DiffFormat::ColorWords
                }
            },
            _ => DiffFormat::ColorWords,
        }
    }
}

/// How the log and details panels are arranged.
#[derive(Clone, Copy, Debug, PartialEq, Eq, Structural)]
pub enum JJLayout {
    Horizontal,
    Vertical,
}

impl Default for JJLayout {
    fn default() -> (r: Self)
        ensures
            r == JJLayout::Horizontal,
    {
        JJLayout::Horizontal
    }
}

/// Mathematical value of a [`JjConfigBlazingjj`].
#[verifier::ext_equal]
pub ghost struct BlazingjjView {
    pub diff_format: Option<FormatView>,
    pub diff_tool: Option<Seq<char>>,
    pub bookmark_template: Option<Seq<char>>,
    pub layout: JJLayout,
    pub layout_percent: u16,
}

/// The tool's own configuration table.
#[derive(Debug)]
pub struct JjConfigBlazingjj {
    diff_format: Option<DiffFormat>,
    diff_tool: Option<String>,
    bookmark_template: Option<String>,
    layout: JJLayout,
    layout_percent: u16,
}

impl View for JjConfigBlazingjj {
    type V = BlazingjjView;

    closed spec fn view(&self) -> BlazingjjView {
        BlazingjjView {
            diff_format: match self.diff_format {
                Some(f) => Some(f@),
                None => None,
            },
            diff_tool: self.diff_tool.deep_view(),
            bookmark_template: self.bookmark_template.deep_view(),
            layout: self.layout,
            layout_percent: self.layout_percent,
        }
    }
}

impl JjConfigBlazingjj {
    pub fn new(
        diff_format: Option<DiffFormat>,
        diff_tool: Option<String>,
        bookmark_template: Option<String>,
        layout: JJLayout,
        layout_percent: u16,
    ) -> (r: Self)
        ensures
            r@.diff_format == (match diff_format {
                Some(f) => Some(f@),
                None => None::<FormatView>,
            }),
            r@.diff_tool == diff_tool.deep_view(),
            r@.bookmark_template == bookmark_template.deep_view(),
            r@.layout == layout,
            r@.layout_percent == layout_percent,
    {
        JjConfigBlazingjj { diff_format, diff_tool, bookmark_template, layout, layout_percent }
    }
}

impl Default for JjConfigBlazingjj {
    fn default() -> (r: Self)
        ensures
            r@ == (BlazingjjView {
                diff_format: None,
                diff_tool: None,
                bookmark_template: None,
                layout: JJLayout::Horizontal,
                layout_percent: 50,
            }),
    {
        JjConfigBlazingjj {
            diff_format: None,
            diff_tool: None,
            bookmark_template: None,
            layout: JJLayout::Horizontal,
            layout_percent: 50,
        }
    }
}

/// Mathematical value of a [`JjConfigUiDiff`].
#[verifier::ext_equal]
pub ghost struct UiDiffView {
    pub format: Option<FormatView>,
    pub tool_configured: bool,
}

/// The version-control tool's own diff table: a format, and whether a diff
/// tool is configured there (the library reads only its presence).
#[derive(Debug)]
pub struct JjConfigUiDiff {
    format: Option<DiffFormat>,
    tool_configured: bool,
}

impl View for JjConfigUiDiff {
    type V = UiDiffView;

    closed spec fn view(&self) -> UiDiffView {
        UiDiffView {
            format: match self.format {
                Some(f) => Some(f@),
                None => None,
            },
            tool_configured: self.tool_configured,
        }
    }
}

impl JjConfigUiDiff {
    pub fn new(format: Option<DiffFormat>, tool_configured: bool) -> (r: Self)
        ensures
            r@.format == (match format {
                Some(f) => Some(f@),
                None => None::<FormatView>,
            }),
            r@.tool_configured == tool_configured,
    {
        JjConfigUiDiff { format, tool_configured }
    }
}

impl Default for JjConfigUiDiff {
    fn default() -> (r: Self)
        ensures
            r@ == (UiDiffView { format: None, tool_configured: false }),
    {
        JjConfigUiDiff { format: None, tool_configured: false }
    }
}

/// The version-control tool's `ui` configuration table.
#[derive(Debug)]
pub struct JjConfigUi {
    diff: JjConfigUiDiff,
}

impl View for JjConfigUi {
    type V = UiDiffView;

    closed spec fn view(&self) -> UiDiffView {
        self.diff@
    }
}

impl JjConfigUi {
    pub fn new(diff: JjConfigUiDiff) -> (r: Self)
        ensures
            r@ == diff@,
    {
        JjConfigUi { diff }
    }
}

impl Default for JjConfigUi {
    fn default() -> (r: Self)
        ensures
            r@ == (UiDiffView { format: None, tool_configured: false }),
    {
        JjConfigUi { diff: JjConfigUiDiff::default() }
    }
}

/// The version-control tool's `templates` configuration table.
#[derive(Debug)]
pub struct JjConfigTemplates {
    git_push_bookmark: Option<String>,
}

impl View for JjConfigTemplates {
    type V = Option<Seq<char>>;

    closed spec fn view(&self) -> Option<Seq<char>> {
        self.git_push_bookmark.deep_view()
    }
}

impl JjConfigTemplates {
    pub fn new(git_push_bookmark: Option<String>) -> (r: Self)
        ensures
            r@ == git_push_bookmark.deep_view(),
    {
        JjConfigTemplates { git_push_bookmark }
    }
}

impl Default for JjConfigTemplates {
    fn default() -> (r: Self)
        ensures
            r@ == None::<Seq<char>>,
    {
        JjConfigTemplates { git_push_bookmark: None }
    }
}

/// Mathematical value of a [`JjConfig`].
#[verifier::ext_equal]
pub ghost struct ConfigView {
    pub blazingjj: BlazingjjView,
    pub ui: UiDiffView,
    pub git_push_bookmark: Option<Seq<char>>,
}

/// The configuration values the library's decisions read.
#[derive(Debug)]
pub struct JjConfig {
    pub blazingjj: JjConfigBlazingjj,
    pub ui: JjConfigUi,
    pub templates: JjConfigTemplates,
}

impl View for JjConfig {
    type V = ConfigView;

    open spec fn view(&self) -> ConfigView {
        ConfigView { blazingjj: self.blazingjj@, ui: self.ui@, git_push_bookmark: self.templates@ }
    }
}

impl Default for JjConfig {
    fn default() -> (r: Self)
        ensures
            r@ == (ConfigView {
                blazingjj: BlazingjjView {
                    diff_format: None,
                    diff_tool: None,
                    bookmark_template: None,
                    layout: JJLayout::Horizontal,
                    layout_percent: 50,
                },
                ui: UiDiffView { format: None, tool_configured: false },
                git_push_bookmark: None,
            }),
    {
        JjConfig {
            blazingjj: JjConfigBlazingjj::default(),
            ui: JjConfigUi::default(),
            templates: JjConfigTemplates::default(),
        }
    }
}

/// The diff tool the configuration selects: the named tool from the tool's
/// own table when one is given; otherwise an unnamed tool when the
/// version-control tool's diff table configures one; otherwise none.
pub open spec fn spec_diff_tool(c: ConfigView) -> Option<Option<Seq<char>>> {
    match c.blazingjj.diff_tool {
        Some(t) => Some(Some(t)),
        None => if c.ui.tool_configured {
            Some(None)
        } else {
            None
        },
    }
}

/// The format the configuration selects: the tool's own table first, then
/// the version-control tool's diff table, then the configured diff tool,
/// and color-words as the last resort.
pub open spec fn spec_diff_format(c: ConfigView) -> FormatView {
    match c.blazingjj.diff_format {
        Some(f) => f,
        None => match c.ui.format {
            Some(f) => f,
            None => match spec_diff_tool(c) {
                Some(t) => FormatView::DiffTool(t),
                None => FormatView::ColorWords,
            },
        },
    }
}

/// The bookmark-name template the configuration selects, with its built-in
/// last resort.
pub open spec fn spec_bookmark_template(c: ConfigView) -> Seq<char> {
    match c.blazingjj.bookmark_template {
        Some(s) => s,
        None => match c.git_push_bookmark {
            Some(s) => s,
            None => "'push-' ++ change_id.short()"@,
        },
    }
}

impl JjConfig {
    pub fn diff_format(&self) -> (r: DiffFormat)
        ensures
            r@ == spec_diff_format(self@),
    {
        match &self.blazingjj.diff_format {
            Some(f) => f.clone(),
            None => match &self.ui.diff.format {
                Some(f) => f.clone(),
                None => match self.diff_tool() {
                    Some(t) => DiffFormat::DiffTool(t),
                    None => DiffFormat::ColorWords,
                },
            },
        }
    }

    pub fn diff_tool(&self) -> (r: Option<Option<String>>)
        ensures
            r.deep_view() == spec_diff_tool(self@),
    {
        match &self.blazingjj.diff_tool {
            Some(t) => Some(Some(t.clone())),
            None => {
                if self.ui.diff.tool_configured {
                    Some(None)
                } else {
                    None
                }
            },
        }
    }

    pub fn bookmark_template(&self) -> (r: String)
        ensures
            r@ == spec_bookmark_template(self@),
    {
        match &self.blazingjj.bookmark_template {
            Some(s) => s.clone(),
            None => match &self.templates.git_push_bookmark {
                Some(s) => s.clone(),
                None => "'push-' ++ change_id.short()".to_owned(),
            },
        }
    }

    pub fn layout(&self) -> (r: JJLayout)
        ensures
            r == self@.blazingjj.layout,
    {
        self.blazingjj.layout
    }

    pub fn layout_percent(&self) -> (r: u16)
        ensures
            r == self@.blazingjj.layout_percent,
    {
        self.blazingjj.layout_percent
    }
}

} // verus!
