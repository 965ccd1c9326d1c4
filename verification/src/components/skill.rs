//! What a skill is and how it stands, shown alike in cards, lists and compact rows.
//!
//! Pages supply what the state means; they never patch the resulting runs. Entries that an
//! agent owns are shown by the same means, though the library has no record of them.

use crate::components::summary::{plain_words, summary_lines, two_lines};
use crate::geometry::{monus, spec_min};
use crate::icons::{local, package, source_icon, source_mark};
use crate::markdown::markdown_lines;
use crate::measure::{display_width, fit, fitted, pad, padded, width};
use crate::model::{EntryState, Icons, SkillRecord, SkillStatus, Source};
use crate::text::{
    after_last, cat2, cat3, clone_all, decimal, numeral, repeat, repeated, said, same_text,
    tail_after, texts, trim, trimmed,
};
use crate::theme::Theme;
use crate::ui::{line_width, plain_run, run, Line, Span, SpanView, Style};
use vstd::prelude::*;

verus! {

// ---- status ------------------------------------------------------------------

/// How a status is told, and whether it is a good one.
#[derive(Debug)]
pub struct Standing {
    pub label: String,
    pub healthy: bool,
}

/// The name that a skill is shown under; its key stays what it is.
pub open spec fn shown_name(r: SkillRecord) -> Seq<char> {
    match r.name {
        Some(name) => if trimmed(name@).len() > 0 {
            name@
        } else {
            after_last(r.key@, '/')
        },
        None => after_last(r.key@, '/'),
    }
}

pub fn display_name(r: &SkillRecord) -> (name: String)
    ensures
        name@ == shown_name(*r),
{
    match &r.name {
        Some(name) => {
            if !trim(name.as_str()).as_str().is_empty() {
                return name.clone();
            }
        },
        None => {},
    }
    tail_after(r.key.as_str(), '/')
}

/// Where a skill comes from, apart from its own name.
pub open spec fn badge_of(r: SkillRecord, icons: Icons) -> Option<Seq<char>> {
    match r.source {
        Some(Source::Local { .. }) => Some(local(icons)@),
        Some(source) => Some(
            source_mark(icons, source) + " "@ + match r.source_name {
                Some(name) => name@,
                None => "Unregistered source"@,
            },
        ),
        None => match r.source_name {
            Some(name) => Some(package(icons)@ + " "@ + name@),
            None => None,
        },
    }
}

pub fn repository_badge(r: &SkillRecord, icons: Icons) -> (badge: Option<String>)
    ensures
        said(badge) == badge_of(*r, icons),
{
    match &r.source {
        Some(Source::Local { .. }) => Some(local(icons).to_owned()),
        Some(source) => {
            let name = match &r.source_name {
                Some(name) => name.as_str(),
                None => "Unregistered source",
            };
            Some(cat3(source_icon(icons, source), " ", name))
        },
        None => match &r.source_name {
            Some(name) => Some(cat3(package(icons), " ", name.as_str())),
            None => None,
        },
    }
}

/// How serious a state is.
#[derive(Debug, Clone, Copy, PartialEq, Eq, Structural)]
pub enum Tone {
    Normal,
    Healthy,
    Warning,
    Error,
}

impl Tone {
    #[verifier::allow_in_spec]
    pub fn style(self, theme: &Theme) -> Style
        returns
            (match self {
                Tone::Normal => theme.dim(),
                Tone::Healthy => theme.ok(),
                Tone::Warning => theme.warn(),
                Tone::Error => theme.err(),
            }),
    {
        match self {
            Tone::Normal => theme.dim(),
            Tone::Healthy => theme.ok(),
            Tone::Warning => theme.warn(),
            Tone::Error => theme.err(),
        }
    }
}

#[verifier::allow_in_spec]
fn status_marker(status: &SkillStatus) -> (&'static str, Tone)
    returns
        (match *status {
            SkillStatus::Local => ("●", Tone::Healthy),
            SkillStatus::Repository => ("●", Tone::Healthy),
            SkillStatus::MissingBaseline => ("●", Tone::Warning),
            SkillStatus::Modified => ("✎", Tone::Warning),
            SkillStatus::Missing => ("✗", Tone::Error),
            SkillStatus::Renamed { .. } => ("↪", Tone::Warning),
            SkillStatus::MissingSource => ("!", Tone::Warning),
            SkillStatus::Invalid { .. } => ("!", Tone::Error),
            SkillStatus::CorruptMeta { .. } => ("!", Tone::Error),
        }),
{
    match status {
        SkillStatus::Local | SkillStatus::Repository => ("●", Tone::Healthy),
        SkillStatus::MissingBaseline => ("●", Tone::Warning),
        SkillStatus::Modified => ("✎", Tone::Warning),
        SkillStatus::Missing => ("✗", Tone::Error),
        SkillStatus::Renamed { .. } => ("↪", Tone::Warning),
        SkillStatus::MissingSource => ("!", Tone::Warning),
        SkillStatus::Invalid { .. } | SkillStatus::CorruptMeta { .. } => ("!", Tone::Error),
    }
}

/// The glyph of a status, and how serious it is.
pub open spec fn marked(status: SkillStatus) -> (Seq<char>, Tone) {
    match status {
        SkillStatus::Local => ("●"@, Tone::Healthy),
        SkillStatus::Repository => ("●"@, Tone::Healthy),
        SkillStatus::MissingBaseline => ("●"@, Tone::Warning),
        SkillStatus::Modified => ("✎"@, Tone::Warning),
        SkillStatus::Missing => ("✗"@, Tone::Error),
        SkillStatus::Renamed { .. } => ("↪"@, Tone::Warning),
        SkillStatus::MissingSource => ("!"@, Tone::Warning),
        SkillStatus::Invalid { .. } => ("!"@, Tone::Error),
        SkillStatus::CorruptMeta { .. } => ("!"@, Tone::Error),
    }
}

/// Badges have the same glyph and severity as the cards of skills.
pub fn status_glyph(status: &SkillStatus, theme: &Theme) -> (r: Span)
    ensures
        r@ == run(marked(*status).0, marked(*status).1.style(theme)),
{
    let (glyph, tone) = status_marker(status);
    Span::styled(glyph, tone.style(theme))
}

pub open spec fn status_words(status: SkillStatus, label: Seq<char>) -> Seq<char> {
    match status {
        SkillStatus::MissingBaseline => "repository · missing baseline"@,
        SkillStatus::Renamed { to } => "renamed? → "@ + to@,
        SkillStatus::Invalid { reason } => "invalid: "@ + reason@,
        SkillStatus::CorruptMeta { error } => "corrupt metadata: "@ + error@,
        _ => label,
    }
}

/// A status in words; `label` is what it is called where nothing more is to be said.
pub fn status_text(status: &SkillStatus, label: &str) -> (r: String)
    ensures
        r@ == status_words(*status, label@),
{
    match status {
        SkillStatus::MissingBaseline => "repository · missing baseline".to_owned(),
        SkillStatus::Renamed { to } => cat2("renamed? → ", to.as_str()),
        SkillStatus::Invalid { reason } => cat2("invalid: ", reason.as_str()),
        SkillStatus::CorruptMeta { error } => cat2("corrupt metadata: ", error.as_str()),
        _ => label.to_owned(),
    }
}

// ---- what is shown -----------------------------------------------------------

/// What is shown of a skill, whatever the density and whoever owns it.
#[derive(Debug)]
pub struct SkillPresentation {
    pub name: String,
    pub description: String,
    pub source: String,
    pub tags: Vec<String>,
    pub presets: Vec<String>,
    pub marker: &'static str,
    pub tone: Tone,
    pub warning: Option<String>,
}

#[verifier::ext_equal]
pub ghost struct SkillView {
    pub name: Seq<char>,
    pub description: Seq<char>,
    pub source: Seq<char>,
    pub tags: Seq<Seq<char>>,
    pub presets: Seq<Seq<char>>,
    pub marker: Seq<char>,
    pub tone: Tone,
    pub warning: Option<Seq<char>>,
}

impl View for SkillPresentation {
    type V = SkillView;

    open spec fn view(&self) -> SkillView {
        SkillView {
            name: self.name@,
            description: self.description@,
            source: self.source@,
            tags: texts(self.tags@),
            presets: texts(self.presets@),
            marker: self.marker@,
            tone: self.tone,
            warning: said(self.warning),
        }
    }
}

#[derive(Debug)]
pub enum SkillDecoration {
    Update,
    Attention(String),
}

/// The groups that a skill can be in.
#[derive(Debug, Clone, Copy, PartialEq, Eq, Structural)]
pub enum Kind {
    Tag,
    Preset,
}

/// What a page has selected or searched for. It goes into what is drawn and never patches it.
#[derive(Debug)]
pub struct SkillRenderState {
    /// Nothing where only one skill can be selected.
    pub checked: Option<bool>,
    pub update_available: bool,
    pub decoration: Option<SkillDecoration>,
    pub excerpt: Option<String>,
    /// What is searched for, to be pointed out in names and descriptions.
    pub terms: Vec<String>,
    pub context: Option<String>,
    pub show_tags: bool,
    /// The group that the page names already.
    pub hidden_group: Option<(Kind, String)>,
    pub show_match_details: bool,
}

impl Default for SkillRenderState {
    fn default() -> (r: SkillRenderState)
        ensures
            r.checked is None,
            !r.update_available,
            r.decoration is None,
            r.excerpt is None,
            r.terms@.len() == 0,
            r.context is None,
            r.show_tags,
            r.hidden_group is None,
            !r.show_match_details,
    {
        SkillRenderState {
            checked: None,
            update_available: false,
            decoration: None,
            excerpt: None,
            terms: Vec::new(),
            context: None,
            show_tags: true,
            hidden_group: None,
            show_match_details: false,
        }
    }
}

/// How skills are drawn.
#[derive(Debug)]
pub struct SkillLook {
    pub theme: Theme,
    pub icons: Icons,
    pub tags_enabled: bool,
    pub marker_width: usize,
    pub compact_name_width: usize,
}

/// The badges of the groups that a skill is in.
#[derive(Debug)]
pub struct Badges {
    pub tags: Line,
    pub presets: Line,
}

pub ghost struct BadgesView {
    pub tags: Seq<SpanView>,
    pub presets: Seq<SpanView>,
}

impl View for Badges {
    type V = BadgesView;

    open spec fn view(&self) -> BadgesView {
        BadgesView { tags: self.tags@, presets: self.presets@ }
    }
}

/// A run of text. What is searched for is to be pointed out in it where `searched` says so.
#[derive(Debug)]
pub struct Piece {
    pub span: Span,
    pub searched: bool,
}

#[verifier::ext_equal]
pub ghost struct PieceView {
    pub span: SpanView,
    pub searched: bool,
}

pub open spec fn piece(text: Seq<char>, style: Style) -> PieceView {
    PieceView { span: run(text, style), searched: false }
}

pub open spec fn searched(text: Seq<char>, style: Style) -> PieceView {
    PieceView { span: run(text, style), searched: true }
}

pub open spec fn pieces_of(spans: Seq<SpanView>) -> Seq<PieceView> {
    spans.map_values(|s: SpanView| PieceView { span: s, searched: false })
}

/// A line of a skill.
#[derive(Debug)]
pub struct SkillLine {
    pub pieces: Vec<Piece>,
}

impl View for Piece {
    type V = PieceView;

    open spec fn view(&self) -> PieceView {
        PieceView { span: self.span@, searched: self.searched }
    }
}

impl View for SkillLine {
    type V = Seq<PieceView>;

    open spec fn view(&self) -> Seq<PieceView> {
        self.pieces@.map_values(|p: Piece| p@)
    }
}

pub open spec fn skill_lines(lines: Seq<SkillLine>) -> Seq<Seq<PieceView>> {
    lines.map_values(|l: SkillLine| l@)
}

impl SkillLine {
    fn new() -> (r: SkillLine)
        ensures
            r@ == Seq::<PieceView>::empty(),
    {
        let r = SkillLine { pieces: Vec::new() };
        assert(r@ =~= Seq::<PieceView>::empty());
        r
    }

    fn push(&mut self, span: Span)
        ensures
            final(self)@ == old(self)@.push(PieceView { span: span@, searched: false }),
    {
        let piece = Piece { span, searched: false };
        self.pieces.push(piece);
        assert(self@ =~= old(self)@.push(piece@));
    }

    fn push_searched(&mut self, text: String, style: Style)
        ensures
            final(self)@ == old(self)@.push(searched(text@, style)),
    {
        let piece = Piece { span: Span::of(text, style), searched: true };
        self.pieces.push(piece);
        assert(self@ =~= old(self)@.push(piece@));
    }

    fn extend(&mut self, other: SkillLine)
        ensures
            final(self)@ == old(self)@ + other@,
    {
        let mut rest = other.pieces;
        let ghost added = rest@;
        self.pieces.append(&mut rest);
        assert(self@ =~= old(self)@ + added.map_values(|p: Piece| p@));
    }

    fn extend_line(&mut self, other: Line)
        ensures
            final(self)@ == old(self)@ + pieces_of(other@),
    {
        let ghost before = self@;
        let mut i: usize = 0;
        assert(self@ =~= before + pieces_of(other@).take(0));
        while i < other.spans.len()
            invariant
                i <= other.spans.len(),
                self@ == before + pieces_of(other@).take(i as int),
            decreases other.spans.len() - i,
        {
            self.push(other.spans[i].clone());
            assert(pieces_of(other@)[i as int] == (PieceView {
                span: other.spans@[i as int]@,
                searched: false,
            }));
            i = i + 1;
            assert(self@ =~= before + pieces_of(other@).take(i as int));
        }
        assert(pieces_of(other@).take(i as int) =~= pieces_of(other@));
    }
}

fn copy_line(line: &Line) -> (r: Line)
    ensures
        r@ == line@,
{
    let mut out = Line::new();
    let mut i: usize = 0;
    while i < line.spans.len()
        invariant
            i <= line.spans.len(),
            out@ == line@.take(i as int),
        decreases line.spans.len() - i,
    {
        out.push(line.spans[i].clone());
        i = i + 1;
        assert(out@ =~= line@.take(i as int));
    }
    assert(out@ =~= line@);
    out
}

// ---- what a skill is ---------------------------------------------------------

/// The badge of a skill in the library, or the mark of a local one.
pub open spec fn library_source(r: SkillRecord, icons: Icons) -> Seq<char> {
    match badge_of(r, icons) {
        Some(badge) => badge,
        None => local(icons)@,
    }
}

/// A skill of the library.
pub open spec fn library_skill(r: SkillRecord, standing: Standing, icons: Icons) -> SkillView {
    SkillView {
        name: shown_name(r),
        description: match r.description {
            Some(text) => text@,
            None => "No description"@,
        },
        source: library_source(r, icons),
        tags: texts(r.tags@),
        presets: texts(r.presets@),
        marker: marked(r.status).0,
        tone: marked(r.status).1,
        warning: if standing.healthy {
            None
        } else {
            Some(standing.label@)
        },
    }
}

/// How an entry of an agent is marked, how serious that is, and what it is called.
pub open spec fn entry_marked(state: Option<EntryState>) -> (Seq<char>, Tone, Seq<char>) {
    match state {
        Some(EntryState::Deployed) => ("✓"@, Tone::Healthy, "linked"@),
        Some(EntryState::Broken) => ("!"@, Tone::Error, "broken link"@),
        Some(EntryState::Shadow { same_content }) => if same_content {
            ("▪"@, Tone::Warning, "shadow"@)
        } else {
            ("▪"@, Tone::Warning, "shadow, differs"@)
        },
        Some(EntryState::Foreign { .. }) => ("→"@, Tone::Warning, "foreign"@),
        Some(EntryState::AgentOnly) => ("▪"@, Tone::Normal, "the agent's own"@),
        None => ("—"@, Tone::Normal, ""@),
    }
}

/// What is said of an entry that has no description.
pub open spec fn entry_fallback(state: Option<EntryState>) -> Seq<char> {
    match state {
        Some(EntryState::Broken) => "the link points at something the root no longer has"@,
        Some(EntryState::Foreign { target }) => "links outside the root to "@ + target@,
        Some(EntryState::AgentOnly) => "only in this agent, not in the root"@,
        _ => "No description"@,
    }
}

/// What an agent has under a name.
pub open spec fn entry_skill(
    name: Seq<char>,
    description: Option<Seq<char>>,
    state: Option<EntryState>,
) -> SkillView {
    let (marker, tone, label) = entry_marked(state);
    SkillView {
        name,
        description: match description {
            Some(text) => if trimmed(text).len() > 0 {
                text
            } else {
                entry_fallback(state)
            },
            None => entry_fallback(state),
        },
        source: label,
        tags: Seq::empty(),
        presets: Seq::empty(),
        marker,
        tone,
        warning: if tone == Tone::Warning || tone == Tone::Error {
            Some(label)
        } else {
            None
        },
    }
}

fn mark_entry(state: &Option<EntryState>) -> (r: (&'static str, Tone, &'static str))
    ensures
        (r.0@, r.1, r.2@) == entry_marked(*state),
{
    match state {
        Some(EntryState::Deployed) => ("✓", Tone::Healthy, "linked"),
        Some(EntryState::Broken) => ("!", Tone::Error, "broken link"),
        Some(EntryState::Shadow { same_content }) => if *same_content {
            ("▪", Tone::Warning, "shadow")
        } else {
            ("▪", Tone::Warning, "shadow, differs")
        },
        Some(EntryState::Foreign { .. }) => ("→", Tone::Warning, "foreign"),
        Some(EntryState::AgentOnly) => ("▪", Tone::Normal, "the agent's own"),
        None => ("—", Tone::Normal, ""),
    }
}

fn describe_entry(state: &Option<EntryState>) -> (r: String)
    ensures
        r@ == entry_fallback(*state),
{
    match state {
        Some(EntryState::Broken) => "the link points at something the root no longer has".to_owned(),
        Some(EntryState::Foreign { target }) => cat2("links outside the root to ", target.as_str()),
        Some(EntryState::AgentOnly) => "only in this agent, not in the root".to_owned(),
        _ => "No description".to_owned(),
    }
}

impl SkillView {
    /// A skill that a group has and the target has not.
    pub open spec fn undeployed(self) -> SkillView {
        if self.warning is None {
            SkillView {
                marker: "◌"@,
                tone: Tone::Normal,
                warning: Some("not deployed"@),
                ..self
            }
        } else {
            self
        }
    }
}

impl SkillPresentation {
    /// A deployment that is missing from a group keeps what the library says of the skill.
    pub fn not_deployed(self) -> (r: SkillPresentation)
        ensures
            r@ == self@.undeployed(),
    {
        let mut next = self;
        if next.warning.is_none() {
            next.marker = "◌";
            next.tone = Tone::Normal;
            next.warning = Some("not deployed".to_owned());
        }
        next
    }

    pub fn managed(r: &SkillRecord, standing: &Standing, icons: Icons) -> (shown: SkillPresentation)
        ensures
            shown@ == library_skill(*r, *standing, icons),
    {
        let (marker, tone) = status_marker(&r.status);
        let tags = clone_all(&r.tags);
        let presets = clone_all(&r.presets);
        assert(texts(tags@) =~= texts(r.tags@));
        assert(texts(presets@) =~= texts(r.presets@));
        SkillPresentation {
            name: display_name(r),
            description: match &r.description {
                Some(text) => text.clone(),
                None => "No description".to_owned(),
            },
            source: match repository_badge(r, icons) {
                Some(badge) => badge,
                None => local(icons).to_owned(),
            },
            tags,
            presets,
            marker,
            tone,
            warning: if standing.healthy {
                None
            } else {
                Some(standing.label.clone())
            },
        }
    }

    /// What an agent has under a name. The library need not have a record of it.
    pub fn entry(name: &str, description: &Option<String>, state: &Option<EntryState>) -> (r:
        SkillPresentation)
        ensures
            r@ == entry_skill(name@, said(*description), *state),
    {
        let (marker, tone, label) = mark_entry(state);
        let text = match description {
            Some(text) => if !trim(text.as_str()).as_str().is_empty() {
                text.clone()
            } else {
                describe_entry(state)
            },
            None => describe_entry(state),
        };
        let r = SkillPresentation {
            name: name.to_owned(),
            description: text,
            source: label.to_owned(),
            tags: Vec::new(),
            presets: Vec::new(),
            marker,
            tone,
            warning: if tone == Tone::Warning || tone == Tone::Error {
                Some(label.to_owned())
            } else {
                None
            },
        };
        assert(texts(r.tags@) =~= Seq::empty());
        assert(texts(r.presets@) =~= Seq::empty());
        r
    }
}

// ---- the first line ----------------------------------------------------------

impl SkillRenderState {
    pub open spec fn wants_attention(self) -> bool {
        match self.decoration {
            Some(SkillDecoration::Attention(_)) => true,
            _ => false,
        }
    }

    /// The page names this group already.
    pub open spec fn hides(self, kind: Kind, name: Seq<char>) -> bool {
        match self.hidden_group {
            Some((hidden, enclosing)) => hidden == kind && enclosing@ == name,
            None => false,
        }
    }

    pub open spec fn has_update(self) -> bool {
        self.update_available || match self.decoration {
            Some(SkillDecoration::Update) => true,
            _ => false,
        }
    }

    fn attention(&self) -> (r: bool)
        ensures
            r == self.wants_attention(),
    {
        matches!(self.decoration, Some(SkillDecoration::Attention(_)))
    }

    fn update(&self) -> (r: bool)
        ensures
            r == self.has_update(),
    {
        self.update_available || matches!(self.decoration, Some(SkillDecoration::Update))
    }
}

impl SkillView {
    /// The mark in front of a skill, and its style.
    pub open spec fn mark(self, state: SkillRenderState, theme: Theme) -> (Seq<char>, Style) {
        let own = (" "@ + self.marker + "  "@, self.tone.style(&theme));
        match state.checked {
            Some(checked) => (
                if checked {
                    "[✓] "@
                } else {
                    "[ ] "@
                },
                if self.warning is Some {
                    self.tone.style(&theme)
                } else if checked {
                    theme.accent()
                } else {
                    theme.dim()
                },
            ),
            None => if self.tone == Tone::Error {
                own
            } else if state.wants_attention() {
                (" \u{f071}  "@, theme.warn())
            } else if self.tone == Tone::Warning {
                own
            } else if state.has_update() {
                (" \u{f0aa}  "@, theme.accent())
            } else {
                own
            },
        }
    }

    pub open spec fn mark_run(self, state: SkillRenderState, look: SkillLook) -> SpanView {
        let (text, style) = self.mark(state, look.theme);
        run(padded(text, look.marker_width as int), style)
    }

    /// What is to be said of a skill, the most serious first.
    pub open spec fn notice(self, state: SkillRenderState, theme: Theme) -> Option<(
        Seq<char>,
        Style,
    )> {
        let own = match self.warning {
            Some(label) => Some((" ! "@ + label, self.tone.style(&theme))),
            None => None,
        };
        if self.tone == Tone::Error {
            own
        } else if state.wants_attention() {
            Some((" "@ + state.decoration->0->Attention_0@, theme.warn()))
        } else if self.tone == Tone::Warning {
            own
        } else if state.has_update() {
            Some((" Update"@, theme.accent()))
        } else {
            None
        }
    }

    /// The notice, where it leaves more than eight columns to the name.
    pub open spec fn shown_notice(self, state: SkillRenderState, theme: Theme, room: int) -> Option<
        (Seq<char>, Style),
    > {
        match self.notice(state, theme) {
            Some((text, style)) => if room > display_width(text) + 8 {
                Some((text, style))
            } else {
                None
            },
            None => None,
        }
    }

    pub open spec fn identity(self, columns: int, state: SkillRenderState, look: SkillLook) -> Seq<
        PieceView,
    > {
        let mark = self.mark_run(state, look);
        let room = monus(columns, look.marker_width as int);
        let head = seq![piece(fitted(mark.content, columns), mark.style)];
        match self.shown_notice(state, look.theme, room) {
            Some((text, style)) => head.push(
                searched(padded(self.name, room - display_width(text)), look.theme.bold()),
            ).push(piece(text, style)),
            None => head.push(searched(padded(self.name, room), look.theme.bold())),
        }
    }
}

impl SkillPresentation {
    fn draw_mark(&self, state: &SkillRenderState, look: &SkillLook) -> (r: Span)
        ensures
            r@ == self@.mark_run(*state, *look),
    {
        let theme = &look.theme;
        let own = cat3(" ", self.marker, "  ");
        let tone = self.tone.style(theme);
        let (text, style) = match state.checked {
            Some(checked) => {
                let style = if self.warning.is_some() {
                    tone
                } else if checked {
                    theme.accent()
                } else {
                    theme.dim()
                };
                (
                    if checked {
                        "[✓] "
                    } else {
                        "[ ] "
                    },
                    style,
                )
            },
            None => if self.tone == Tone::Error {
                (own.as_str(), tone)
            } else if state.attention() {
                (" \u{f071}  ", theme.warn())
            } else if self.tone == Tone::Warning {
                (own.as_str(), tone)
            } else if state.update() {
                (" \u{f0aa}  ", theme.accent())
            } else {
                (own.as_str(), tone)
            },
        };
        Span::of(pad(text, look.marker_width), style)
    }

    fn draw_notice(&self, state: &SkillRenderState, theme: &Theme) -> (r: Option<(String, Style)>)
        ensures
            match r {
                Some((text, style)) => self@.notice(*state, *theme) == Some((text@, style)),
                None => self@.notice(*state, *theme) is None,
            },
    {
        let own = match &self.warning {
            Some(label) => Some((cat2(" ! ", label.as_str()), self.tone.style(theme))),
            None => None,
        };
        if self.tone == Tone::Error {
            return own;
        }
        match &state.decoration {
            Some(SkillDecoration::Attention(label)) => {
                return Some((cat2(" ", label.as_str()), theme.warn()));
            },
            _ => {},
        }
        if self.tone == Tone::Warning {
            own
        } else if state.update() {
            Some((" Update".to_owned(), theme.accent()))
        } else {
            None
        }
    }

    fn draw_identity(&self, columns: usize, state: &SkillRenderState, look: &SkillLook) -> (r:
        SkillLine)
        ensures
            r@ == self@.identity(columns as int, *state, *look),
    {
        let theme = &look.theme;
        let mark = self.draw_mark(state, look);
        let mut line = SkillLine::new();
        line.push(Span::of(fit(mark.content.as_str(), columns), mark.style));
        assert(line@ =~= seq![piece(fitted(mark@.content, columns as int), mark@.style)]);
        let room: usize = columns.saturating_sub(look.marker_width);
        match self.draw_notice(state, theme) {
            Some((text, style)) => {
                let w = width(text.as_str());
                if room as u128 > w as u128 + 8 {
                    line.push_searched(pad(self.name.as_str(), room - w), theme.bold());
                    line.push(Span::of(text, style));
                } else {
                    line.push_searched(pad(self.name.as_str(), room), theme.bold());
                }
            },
            None => {
                line.push_searched(pad(self.name.as_str(), room), theme.bold());
            },
        }
        line
    }
}

// ---- where it comes from and what it belongs to --------------------------------

impl SkillView {
    pub open spec fn source_text(self, state: SkillRenderState) -> Seq<char> {
        match state.context {
            Some(tail) => if tail@.len() > 0 && tail@ != "local"@ && tail@ != "git"@ && tail@
                != "archive"@ {
                self.source + " · "@ + tail@
            } else {
                self.source
            },
            None => self.source,
        }
    }

    /// The groups that are shown: none that the page names already.
    pub open spec fn members(self, kind: Kind, state: SkillRenderState, look: SkillLook) -> Seq<
        Seq<char>,
    > {
        let names = match kind {
            Kind::Tag => if !state.show_tags || !look.tags_enabled {
                Seq::empty()
            } else {
                self.tags
            },
            Kind::Preset => self.presets,
        };
        match state.hidden_group {
            Some((hidden, name)) => if hidden == kind {
                names.filter(|n: Seq<char>| n != name@)
            } else {
                names
            },
            None => names,
        }
    }

    /// How wide the source and all of the badges are.
    pub open spec fn whole_width(self, state: SkillRenderState, full: BadgesView) -> int {
        let tags = line_width(full.tags);
        let presets = line_width(full.presets);
        display_width(self.source_text(state)) + (if tags + presets > 0 {
            1int
        } else {
            0
        }) + tags + (if tags > 0 && presets > 0 {
            1int
        } else {
            0
        }) + presets
    }

    /// The columns of the source where not all of the badges fit.
    pub open spec fn cut_source(self, state: SkillRenderState, columns: int) -> int {
        spec_min(display_width(self.source_text(state)) as int, columns / 3)
    }

    /// The columns of the badges where not all of them fit; none where they do, or where there
    /// are no badges.
    pub open spec fn rooms(
        self,
        columns: int,
        state: SkillRenderState,
        look: SkillLook,
        full: BadgesView,
    ) -> Option<(int, int)> {
        let tags = self.members(Kind::Tag, state, look);
        let presets = self.members(Kind::Preset, state, look);
        let room = monus(columns, self.cut_source(state, columns) + 1);
        if tags.len() == 0 && presets.len() == 0 {
            None
        } else if self.whole_width(state, full) <= columns {
            None
        } else if tags.len() == 0 {
            Some((0, room))
        } else if presets.len() == 0 {
            Some((room, 0))
        } else {
            let both = monus(room, 1);
            Some((both / 2, both - both / 2))
        }
    }

    /// The source on the left, and the badges packed against the right edge. `full` is all of
    /// the badges, `cut` as much of them as the rooms hold.
    pub open spec fn metadata(
        self,
        columns: int,
        state: SkillRenderState,
        look: SkillLook,
        full: BadgesView,
        cut: BadgesView,
    ) -> Seq<SpanView> {
        let text = self.source_text(state);
        let rooms = self.rooms(columns, state, look, full);
        if self.members(Kind::Tag, state, look).len() == 0 && self.members(
            Kind::Preset,
            state,
            look,
        ).len() == 0 {
            seq![run(fitted(text, columns), look.theme.source())]
        } else if rooms is None {
            packed(fitted(text, display_width(text) as int), full, columns, look.theme)
        } else {
            packed(fitted(text, self.cut_source(state, columns)), cut, columns, look.theme)
        }
    }
}

/// A blank between the badges where there are both.
pub open spec fn badge_gap(badges: BadgesView) -> int {
    if line_width(badges.tags) > 0 && line_width(badges.presets) > 0 {
        1
    } else {
        0
    }
}

/// The columns of a source and the badges.
pub open spec fn packed_width(source: Seq<char>, badges: BadgesView) -> int {
    display_width(source) + line_width(badges.tags) + line_width(badges.presets) + badge_gap(badges)
}

/// A source, the room that is left, and the badges.
pub open spec fn packed(source: Seq<char>, badges: BadgesView, columns: int, theme: Theme) -> Seq<
    SpanView,
> {
    seq![
        run(source, theme.source()),
        plain_run(repeated(' ', monus(columns, packed_width(source, badges)))),
    ] + badges.tags + (if badge_gap(badges) > 0 {
        seq![plain_run(" "@)]
    } else {
        Seq::empty()
    }) + badges.presets
}

proof fn lemma_line_width_push(line: Seq<SpanView>, span: SpanView)
    ensures
        line_width(line.push(span)) == line_width(line) + display_width(span.content),
{
    assert(line.push(span).drop_last() =~= line);
}

proof fn lemma_line_width_cat(a: Seq<SpanView>, b: Seq<SpanView>)
    ensures
        line_width(a + b) == line_width(a) + line_width(b),
        line_width(b) >= 0,
    decreases b.len(),
{
    if b.len() == 0 {
        assert(a + b =~= a);
    } else {
        assert((a + b).drop_last() =~= a + b.drop_last());
        lemma_line_width_cat(a, b.drop_last());
    }
}

/// The columns of a line, as far as they can matter to a width on the screen.
fn measure_line(line: &Line) -> (r: u128)
    ensures
        r == spec_min(line_width(line@), 0x1_0000_0000_0000_0000),
{
    let mut sum: u128 = 0;
    let mut i: usize = 0;
    assert(line@.take(0) =~= Seq::empty());
    while i < line.spans.len()
        invariant
            i <= line.spans.len(),
            sum == spec_min(line_width(line@.take(i as int)), 0x1_0000_0000_0000_0000),
        decreases line.spans.len() - i,
    {
        let next: u128 = sum + width(line.spans[i].content.as_str()) as u128;
        sum = if next > 0x1_0000_0000_0000_0000 {
            0x1_0000_0000_0000_0000
        } else {
            next
        };
        assert(line@.take(i + 1).drop_last() =~= line@.take(i as int));
        assert(line@.take(i + 1).last() == line.spans@[i as int]@);
        i = i + 1;
    }
    assert(line@.take(i as int) =~= line@);
    sum
}

/// `n` blanks, which are as wide as they are many.
fn blanks(n: usize) -> (r: String)
    ensures
        r@ == repeated(' ', n as int),
        display_width(r@) == n,
{
    let r = repeat(' ', n);
    let measured = width(r.as_str());
    r
}

fn pack(source: String, badges: &Badges, columns: usize, theme: &Theme) -> (r: Line)
    ensures
        r@ == packed(source@, badges@, columns as int, *theme),
        packed_width(source@, badges@) <= columns ==> line_width(r@) == columns,
{
    let tags = measure_line(&badges.tags);
    let presets = measure_line(&badges.presets);
    proof {
        lemma_line_width_cat(Seq::empty(), badges.tags@);
        lemma_line_width_cat(Seq::empty(), badges.presets@);
    }
    let gap: u128 = if tags > 0 && presets > 0 {
        1
    } else {
        0
    };
    let used: u128 = width(source.as_str()) as u128 + tags + presets + gap;
    let spare: usize = if used < columns as u128 {
        columns - used as usize
    } else {
        0
    };
    let mut line = Line::new();
    let ghost text = source@;
    line.push(Span::of(source, theme.source()));
    line.push(Span::of(blanks(spare), Style::plain()));
    let ghost head = line@;
    assert(head =~= seq![run(text, theme.source()), plain_run(repeated(' ', spare as int))]);
    proof {
        let first = seq![run(text, theme.source())];
        assert(first.drop_last() =~= Seq::empty());
        assert(line_width(first) == display_width(text));
        assert(head =~= first.push(plain_run(repeated(' ', spare as int))));
        lemma_line_width_push(first, plain_run(repeated(' ', spare as int)));
        lemma_line_width_cat(head, badges.tags@);
    }
    line.extend(copy_line(&badges.tags));
    let ghost with_tags = line@;
    if gap > 0 {
        line.push(Span::of(blanks(1), Style::plain()));
        assert(repeated(' ', 1) =~= " "@) by {
            reveal_strlit(" ");
        }
        proof {
            lemma_line_width_push(with_tags, plain_run(" "@));
        }
        assert(line@ =~= with_tags + seq![plain_run(" "@)]);
    } else {
        assert(line@ =~= with_tags + Seq::<SpanView>::empty());
    }
    proof {
        lemma_line_width_cat(line@, badges.presets@);
    }
    line.extend(copy_line(&badges.presets));
    line
}

impl SkillPresentation {
    fn say_source(&self, state: &SkillRenderState) -> (r: String)
        ensures
            r@ == self@.source_text(*state),
    {
        proof {
            reveal_strlit("");
        }
        match &state.context {
            Some(tail) => {
                let text = tail.as_str();
                if !text.is_empty() && !same_text(text, "local") && !same_text(text, "git")
                    && !same_text(text, "archive") {
                    return cat3(self.source.as_str(), " · ", text);
                }
            },
            None => {},
        }
        self.source.clone()
    }

    /// The groups that are shown: none that the page names already.
    pub fn memberships(&self, kind: Kind, state: &SkillRenderState, look: &SkillLook) -> (r: Vec<
        String,
    >)
        ensures
            texts(r@) == self@.members(kind, *state, *look),
    {
        let names = match kind {
            Kind::Tag => if !state.show_tags || !look.tags_enabled {
                Vec::new()
            } else {
                clone_all(&self.tags)
            },
            Kind::Preset => clone_all(&self.presets),
        };
        match &state.hidden_group {
            Some((hidden, name)) => {
                if *hidden == kind {
                    let r = without(&names, name.as_str());
                    assert(texts(names@) =~= match kind {
                        Kind::Tag => if !state.show_tags || !look.tags_enabled {
                            Seq::empty()
                        } else {
                            self@.tags
                        },
                        Kind::Preset => self@.presets,
                    });
                    return r;
                }
            },
            None => {},
        }
        assert(texts(names@) =~= self@.members(kind, *state, *look));
        names
    }

    /// The columns of the badges where not all of them fit; none where they do, or where there
    /// are no badges.
    pub fn badge_rooms(
        &self,
        columns: usize,
        state: &SkillRenderState,
        look: &SkillLook,
        full: &Badges,
    ) -> (r: Option<(usize, usize)>)
        ensures
            match r {
                Some((tags, presets)) => self@.rooms(columns as int, *state, *look, full@) == Some(
                    (tags as int, presets as int),
                ),
                None => self@.rooms(columns as int, *state, *look, full@) is None,
            },
    {
        let tags = self.memberships(Kind::Tag, state, look);
        let presets = self.memberships(Kind::Preset, state, look);
        assert(texts(tags@).len() == tags@.len());
        assert(texts(presets@).len() == presets@.len());
        if tags.len() == 0 && presets.len() == 0 {
            return None;
        }
        proof {
            lemma_line_width_cat(Seq::empty(), full.tags@);
            lemma_line_width_cat(Seq::empty(), full.presets@);
        }
        let tag_width = measure_line(&full.tags);
        let preset_width = measure_line(&full.presets);
        let source = width(self.say_source(state).as_str());
        let separator: u128 = if tag_width + preset_width > 0 {
            1
        } else {
            0
        };
        let gap: u128 = if tag_width > 0 && preset_width > 0 {
            1
        } else {
            0
        };
        let whole: u128 = source as u128 + separator + tag_width + gap + preset_width;
        if whole <= columns as u128 {
            return None;
        }
        let third: usize = columns / 3;
        let cut: usize = if source <= third {
            source
        } else {
            third
        };
        let room: usize = (columns - cut).saturating_sub(1);
        if tags.len() == 0 {
            return Some((0, room));
        }
        if presets.len() == 0 {
            return Some((room, 0));
        }
        let both: usize = room.saturating_sub(1);
        Some((both / 2, both - both / 2))
    }

    /// The source on the left, and the badges packed against the right edge. `full` is all of
    /// the badges, `cut` as much of them as the rooms hold. Where they fit beside the source,
    /// the line is exactly as wide as it is asked to be.
    pub fn draw_metadata(
        &self,
        columns: usize,
        state: &SkillRenderState,
        look: &SkillLook,
        full: &Badges,
        cut: &Badges,
    ) -> (r: Line)
        ensures
            r@ == self@.metadata(columns as int, *state, *look, full@, cut@),
            self@.members(Kind::Tag, *state, *look).len() + self@.members(
                Kind::Preset,
                *state,
                *look,
            ).len() > 0 && self@.rooms(columns as int, *state, *look, full@) is None
                ==> line_width(r@) == columns,
    {
        let source = self.say_source(state);
        let tags = self.memberships(Kind::Tag, state, look);
        let presets = self.memberships(Kind::Preset, state, look);
        assert(texts(tags@).len() == tags@.len());
        assert(texts(presets@).len() == presets@.len());
        if tags.len() == 0 && presets.len() == 0 {
            return Line::one(Span::of(fit(source.as_str(), columns), look.theme.source()));
        }
        let whole = width(source.as_str());
        match self.badge_rooms(columns, state, look, full) {
            None => {
                proof {
                    lemma_line_width_cat(Seq::empty(), full.tags@);
                    lemma_line_width_cat(Seq::empty(), full.presets@);
                }
                pack(fit(source.as_str(), whole), full, columns, &look.theme)
            },
            Some(_) => {
                let third: usize = columns / 3;
                let cut_to: usize = if whole <= third {
                    whole
                } else {
                    third
                };
                pack(fit(source.as_str(), cut_to), cut, columns, &look.theme)
            },
        }
    }
}

fn without(names: &Vec<String>, name: &str) -> (r: Vec<String>)
    ensures
        texts(r@) == texts(names@).filter(|n: Seq<char>| n != name@),
{
    let ghost keep = |n: Seq<char>| n != name@;
    let mut out: Vec<String> = Vec::new();
    let mut i: usize = 0;
    proof {
        reveal(Seq::filter);
        assert(texts(names@).take(0) =~= Seq::empty());
        assert(texts(out@) =~= Seq::empty());
    }
    while i < names.len()
        invariant
            i <= names.len(),
            keep == (|n: Seq<char>| n != name@),
            texts(out@) == texts(names@).take(i as int).filter(keep),
        decreases names.len() - i,
    {
        let ghost all = texts(names@);
        proof {
            reveal(Seq::filter);
            assert(all.take(i + 1).drop_last() =~= all.take(i as int));
            assert(all.take(i + 1).last() == names@[i as int]@);
        }
        if !same_text(names[i].as_str(), name) {
            let text = names[i].clone();
            assert(texts(out@.push(text)) =~= texts(out@).push(text@));
            out.push(text);
        }
        i = i + 1;
    }
    assert(texts(names@).take(i as int) =~= texts(names@));
    out
}

// ---- densities ---------------------------------------------------------------

impl SkillView {
    /// The text that the description lines show.
    pub open spec fn told(self, state: SkillRenderState) -> Seq<char> {
        match state.excerpt {
            Some(text) => text@,
            None => self.description,
        }
    }

    /// Who it is, two lines of description, and where it belongs. `summary` is the description
    /// as words.
    pub open spec fn card(
        self,
        columns: int,
        state: SkillRenderState,
        look: SkillLook,
        summary: Seq<char>,
        full: BadgesView,
        cut: BadgesView,
    ) -> Seq<Seq<PieceView>> {
        let lines = two_lines(summary, columns);
        seq![
            self.identity(columns, state, look),
            seq![searched(lines.0, look.theme.description())],
            seq![searched(lines.1, look.theme.description())],
            pieces_of(self.metadata(columns, state, look, full, cut)),
        ]
    }

    /// A card, with a mark in front of the selected one.
    pub open spec fn listed(
        self,
        columns: int,
        selected: bool,
        state: SkillRenderState,
        look: SkillLook,
        summary: Seq<char>,
        full: BadgesView,
        cut: BadgesView,
    ) -> Seq<Seq<PieceView>> {
        let lines = self.card(monus(columns, 2), state, look, summary, full, cut);
        Seq::new(
            4,
            |i: int|
                seq![piece(fitted(pointer(selected && i == 0), columns), look.theme.accent())]
                    + lines[i],
        )
    }

    /// The columns that a compact row keeps for one sort of groups.
    pub open spec fn kept_for(self, names: int, badges: Seq<SpanView>) -> int {
        if names == 0 {
            0
        } else {
            spec_min(line_width(badges), 8 + (if names > 1 {
                display_width(" +"@ + numeral(names - 1)) as int
            } else {
                0
            })) + 1
        }
    }

    /// The columns of the name in a compact row.
    pub open spec fn compact_name(
        self,
        columns: int,
        state: SkillRenderState,
        look: SkillLook,
        full: BadgesView,
    ) -> int {
        let tags = self.members(Kind::Tag, state, look).len() as int;
        let presets = self.members(Kind::Preset, state, look).len() as int;
        name_room(
            monus(columns, 2 + look.marker_width),
            display_width(self.name) as int,
            spec_min(display_width(self.source) as int, 10) + self.kept_for(tags, full.tags)
                + self.kept_for(presets, full.presets),
            tags + presets > 0,
            look.compact_name_width as int,
        )
    }

    /// The columns for the source and the badges in a compact row, with the blank in front.
    pub open spec fn compact_rest(
        self,
        columns: int,
        state: SkillRenderState,
        look: SkillLook,
        full: BadgesView,
    ) -> int {
        monus(
            monus(columns, 2 + look.marker_width),
            self.compact_name(columns, state, look, full),
        )
    }

    pub open spec fn compact_head(
        self,
        columns: int,
        selected: bool,
        state: SkillRenderState,
        look: SkillLook,
        full: BadgesView,
        cut: BadgesView,
    ) -> Seq<PieceView> {
        let mark = self.mark_run(state, look);
        let rest = self.compact_rest(columns, state, look, full);
        seq![
            piece(fitted(pointer(selected), columns), look.theme.accent()),
            piece(fitted(mark.content, monus(columns, 2)), mark.style),
            searched(
                padded(self.name, self.compact_name(columns, state, look, full)),
                look.theme.bold(),
            ),
        ] + (if rest > 0 {
            seq![piece(" "@, Style::plain())] + pieces_of(
                self.metadata(rest - 1, state, look, full, cut),
            )
        } else {
            Seq::empty()
        })
    }

    /// Where a search found something, and what.
    pub open spec fn match_line(self, columns: int, state: SkillRenderState, theme: Theme) -> Seq<
        PieceView,
    > {
        let context = match state.context {
            Some(text) => if text@.len() > 0 {
                text@ + " "@
            } else {
                ""@
            },
            None => ""@,
        };
        let prefix = fitted("    "@ + context, columns);
        let excerpt = match state.excerpt {
            Some(text) => text@,
            None => ""@,
        };
        seq![
            piece(prefix, theme.description().slanted()),
            searched(
                fitted(excerpt, monus(columns, display_width(prefix) as int)),
                theme.description(),
            ),
        ]
    }

    /// A dense row with the same mark and the same badges.
    pub open spec fn compacted(
        self,
        columns: int,
        selected: bool,
        state: SkillRenderState,
        look: SkillLook,
        full: BadgesView,
        cut: BadgesView,
    ) -> Seq<Seq<PieceView>> {
        let head = self.compact_head(columns, selected, state, look, full, cut);
        if state.show_match_details {
            seq![head, self.match_line(columns, state, look.theme)]
        } else {
            seq![head]
        }
    }
}

/// The columns of a name that is `named` columns wide, of `content` columns in all, where
/// `wanted` of them are wished for behind it and `asked` are set for it. With groups behind it
/// a name keeps up to eight columns; else it keeps half.
pub open spec fn name_room(content: int, named: int, wanted: int, grouped: bool, asked: int) -> int {
    let least = spec_min(spec_min(named, 8), content);
    let kept = if grouped {
        spec_min(wanted, monus(content, least + 1))
    } else {
        spec_min(wanted, content / 2)
    };
    spec_min(spec_min(asked, named), monus(content, kept + (if kept > 0 {
        1int
    } else {
        0
    })))
}

/// A wish that no screen can hold is as good as any other.
proof fn lemma_large_wishes_agree(content: int, named: int, a: int, b: int, grouped: bool, asked: int)
    requires
        0 <= content <= 0x1_0000_0000_0000_0000,
        named >= 0,
        a == b || (a > 0x1_0000_0000_0000_0000 && b > 0x1_0000_0000_0000_0000),
    ensures
        name_room(content, named, a, grouped, asked) == name_room(content, named, b, grouped, asked),
{
}

fn place_name(content: usize, named: usize, wanted: u128, grouped: bool, asked: usize) -> (r: usize)
    ensures
        r == name_room(content as int, named as int, wanted as int, grouped, asked as int),
{
    let short: usize = if named <= 8 {
        named
    } else {
        8
    };
    let least: usize = if short <= content {
        short
    } else {
        content
    };
    let most: usize = if grouped {
        (content - least).saturating_sub(1)
    } else {
        content / 2
    };
    let kept: usize = if wanted <= most as u128 {
        wanted as usize
    } else {
        most
    };
    let left: usize = if kept > 0 {
        content.saturating_sub(kept).saturating_sub(1)
    } else {
        content
    };
    let wish: usize = if asked <= named {
        asked
    } else {
        named
    };
    if wish <= left {
        wish
    } else {
        left
    }
}

/// What stands in front of a row.
pub open spec fn pointer(selected: bool) -> Seq<char> {
    if selected {
        "▸ "@
    } else {
        "  "@
    }
}

fn point(selected: bool) -> (r: &'static str)
    ensures
        r@ == pointer(selected),
{
    if selected {
        "▸ "
    } else {
        "  "
    }
}

impl SkillPresentation {
    /// Who it is, two lines of description, and where it belongs.
    pub fn card(
        &self,
        columns: usize,
        state: &SkillRenderState,
        look: &SkillLook,
        full: &Badges,
        cut: &Badges,
    ) -> (r: Vec<SkillLine>)
        ensures
            skill_lines(r@) == self@.card(
                columns as int,
                *state,
                *look,
                plain_words(markdown_lines(self@.told(*state))),
                full@,
                cut@,
            ),
            r@.len() == 4,
    {
        let text = match &state.excerpt {
            Some(text) => text.as_str(),
            None => self.description.as_str(),
        };
        let (first, second) = summary_lines(text, columns);
        let style = look.theme.description();
        let head = self.draw_identity(columns, state, look);
        let mut above = SkillLine::new();
        above.push_searched(first, style);
        assert(above@ =~= seq![searched(first@, style)]);
        let mut below = SkillLine::new();
        below.push_searched(second, style);
        assert(below@ =~= seq![searched(second@, style)]);
        let mut last = SkillLine::new();
        last.extend_line(self.draw_metadata(columns, state, look, full, cut));
        assert(last@ =~= pieces_of(
            self@.metadata(columns as int, *state, *look, full@, cut@),
        ));
        let r = vec![head, above, below, last];
        assert(skill_lines(r@) =~= seq![head@, above@, below@, last@]);
        r
    }

    /// A card, with a mark in front of the selected one.
    pub fn list(
        &self,
        columns: usize,
        selected: bool,
        state: &SkillRenderState,
        look: &SkillLook,
        full: &Badges,
        cut: &Badges,
    ) -> (r: Vec<SkillLine>)
        ensures
            skill_lines(r@) == self@.listed(
                columns as int,
                selected,
                *state,
                *look,
                plain_words(markdown_lines(self@.told(*state))),
                full@,
                cut@,
            ),
    {
        let mut lines = self.card(columns.saturating_sub(2), state, look, full, cut);
        let ghost cards = skill_lines(lines@);
        let ghost rows = self@.listed(
            columns as int,
            selected,
            *state,
            *look,
            plain_words(markdown_lines(self@.told(*state))),
            full@,
            cut@,
        );
        let mut out: Vec<SkillLine> = Vec::new();
        assert(skill_lines(lines@) =~= cards.skip(0));
        while lines.len() > 0
            invariant
                cards.len() == 4,
                rows.len() == 4,
                out@.len() + lines@.len() == 4,
                skill_lines(lines@) == cards.skip(out@.len() as int),
                skill_lines(out@) == rows.take(out@.len() as int),
                forall|i: int|
                    0 <= i < 4 ==> #[trigger] rows[i] == seq![
                        piece(
                            fitted(pointer(selected && i == 0), columns as int),
                            look.theme.accent(),
                        ),
                    ] + cards[i],
            decreases lines@.len(),
        {
            let ghost at = out@.len() as int;
            let mut row = SkillLine::new();
            row.push(
                Span::of(fit(point(selected && out.len() == 0), columns), look.theme.accent()),
            );
            let ghost before = lines@;
            assert(skill_lines(before)[0] == before[0]@);
            let line = lines.remove(0);
            row.extend(line);
            assert(row@ =~= rows[at]);
            assert(skill_lines(lines@) =~= skill_lines(before).skip(1));
            assert(cards.skip(at).skip(1) =~= cards.skip(at + 1));
            assert(skill_lines(out@.push(row)) =~= skill_lines(out@).push(row@));
            out.push(row);
            assert(skill_lines(out@) =~= rows.take(at + 1));
        }
        assert(rows.take(4) =~= rows);
        out
    }

    fn keep_for(&self, names: usize, badges: &Line) -> (r: u128)
        ensures
            r == self@.kept_for(names as int, badges@) || (r > 0x1_0000_0000_0000_0000
                && self@.kept_for(names as int, badges@) > 0x1_0000_0000_0000_0000),
            r <= 0x1_0000_0000_0000_0001,
            self@.kept_for(names as int, badges@) >= 0,
    {
        proof {
            lemma_line_width_cat(Seq::empty(), badges@);
        }
        if names == 0 {
            return 0;
        }
        let more: u128 = if names > 1 {
            width(cat2(" +", decimal(names - 1).as_str()).as_str()) as u128
        } else {
            0
        };
        let measured = measure_line(badges);
        if measured <= 8 + more {
            measured + 1
        } else {
            8 + more + 1
        }
    }

    fn compact_name_width(
        &self,
        columns: usize,
        state: &SkillRenderState,
        look: &SkillLook,
        full: &Badges,
    ) -> (r: usize)
        ensures
            r == self@.compact_name(columns as int, *state, *look, full@),
    {
        let tags = self.memberships(Kind::Tag, state, look);
        let presets = self.memberships(Kind::Preset, state, look);
        assert(texts(tags@).len() == tags@.len());
        assert(texts(presets@).len() == presets@.len());
        proof {
            lemma_line_width_cat(Seq::empty(), full.tags@);
            lemma_line_width_cat(Seq::empty(), full.presets@);
        }
        let content: usize = columns.saturating_sub(2).saturating_sub(look.marker_width);
        let named = width(self.name.as_str());
        let sourced = width(self.source.as_str());
        let base: u128 = if sourced <= 10 {
            sourced as u128
        } else {
            10
        };
        let for_tags = self.keep_for(tags.len(), &full.tags);
        let for_presets = self.keep_for(presets.len(), &full.presets);
        let wanted: u128 = base + for_tags + for_presets;
        let grouped = tags.len() > 0 || presets.len() > 0;
        proof {
            lemma_large_wishes_agree(
                content as int,
                named as int,
                wanted as int,
                base + self@.kept_for(tags@.len() as int, full.tags@) + self@.kept_for(
                    presets@.len() as int,
                    full.presets@,
                ),
                grouped,
                look.compact_name_width as int,
            );
        }
        place_name(content, named, wanted, grouped, look.compact_name_width)
    }

    /// The columns of the badges in a compact row where not all of them fit.
    pub fn compact_rooms(
        &self,
        columns: usize,
        state: &SkillRenderState,
        look: &SkillLook,
        full: &Badges,
    ) -> (r: Option<(usize, usize)>)
        ensures
            ({
                let rest = self@.compact_rest(columns as int, *state, *look, full@);
                match r {
                    Some((tags, presets)) => rest > 0 && self@.rooms(
                        rest - 1,
                        *state,
                        *look,
                        full@,
                    ) == Some((tags as int, presets as int)),
                    None => rest == 0 || self@.rooms(rest - 1, *state, *look, full@) is None,
                }
            }),
    {
        let name = self.compact_name_width(columns, state, look, full);
        let rest: usize = columns.saturating_sub(2).saturating_sub(look.marker_width).saturating_sub(
            name,
        );
        if rest > 0 {
            self.badge_rooms(rest - 1, state, look, full)
        } else {
            None
        }
    }

    fn draw_match(&self, columns: usize, state: &SkillRenderState, theme: &Theme) -> (r: SkillLine)
        ensures
            r@ == self@.match_line(columns as int, *state, *theme),
    {
        proof {
            reveal_strlit("");
        }
        let mut text = "    ".to_owned();
        match &state.context {
            Some(context) => {
                if !context.as_str().is_empty() {
                    let tail = cat2(context.as_str(), " ");
                    text.append(tail.as_str());
                } else {
                    assert(text@ + ""@ =~= text@);
                }
            },
            None => {
                assert(text@ + ""@ =~= text@);
            },
        }
        let prefix = fit(text.as_str(), columns);
        let room: usize = columns.saturating_sub(width(prefix.as_str()));
        let excerpt = match &state.excerpt {
            Some(text) => text.as_str(),
            None => "",
        };
        let mut line = SkillLine::new();
        line.push(Span::of(prefix, theme.description().slanted()));
        line.push_searched(fit(excerpt, room), theme.description());
        assert(line@ =~= self@.match_line(columns as int, *state, *theme));
        line
    }

    fn draw_compact_head(
        &self,
        columns: usize,
        selected: bool,
        state: &SkillRenderState,
        look: &SkillLook,
        full: &Badges,
        cut: &Badges,
    ) -> (r: SkillLine)
        ensures
            r@ == self@.compact_head(columns as int, selected, *state, *look, full@, cut@),
    {
        let theme = &look.theme;
        let name = self.compact_name_width(columns, state, look, full);
        let mark = self.draw_mark(state, look);
        let mut line = SkillLine::new();
        line.push(Span::of(fit(point(selected), columns), theme.accent()));
        line.push(Span::of(fit(mark.content.as_str(), columns.saturating_sub(2)), mark.style));
        line.push_searched(pad(self.name.as_str(), name), theme.bold());
        let ghost front = line@;
        let rest: usize = columns.saturating_sub(2).saturating_sub(look.marker_width).saturating_sub(
            name,
        );
        if rest > 0 {
            line.push(Span::of(" ".to_owned(), Style::plain()));
            line.extend_line(self.draw_metadata(rest - 1, state, look, full, cut));
        }
        assert(line@ =~= self@.compact_head(columns as int, selected, *state, *look, full@, cut@));
        line
    }

    /// A dense row with the same mark and the same badges.
    pub fn compact(
        &self,
        columns: usize,
        selected: bool,
        state: &SkillRenderState,
        look: &SkillLook,
        full: &Badges,
        cut: &Badges,
    ) -> (r: Vec<SkillLine>)
        ensures
            skill_lines(r@) == self@.compacted(
                columns as int,
                selected,
                *state,
                *look,
                full@,
                cut@,
            ),
    {
        let head = self.draw_compact_head(columns, selected, state, look, full, cut);
        if state.show_match_details {
            let found = self.draw_match(columns, state, &look.theme);
            let r = vec![head, found];
            assert(skill_lines(r@) =~= seq![head@, found@]);
            r
        } else {
            let r = vec![head];
            assert(skill_lines(r@) =~= seq![head@]);
            r
        }
    }
}

// ---- laws --------------------------------------------------------------------

/// What is wrong with a skill itself is shown before anything that its repository offers.
pub proof fn lemma_local_errors_come_first(skill: SkillView, state: SkillRenderState, other: SkillRenderState, theme: Theme)
    requires
        skill.tone == Tone::Error,
        state.checked is None,
        other.checked is None,
    ensures
        skill.mark(state, theme) == skill.mark(other, theme),
        skill.notice(state, theme) == skill.notice(other, theme),
{
}

/// An update is not shown on a skill that has a warning.
pub proof fn lemma_warnings_hide_updates(skill: SkillView, state: SkillRenderState, other: SkillRenderState, theme: Theme)
    requires
        skill.tone == Tone::Warning,
        state.checked is None,
        other.checked is None,
        !state.wants_attention(),
        !other.wants_attention(),
    ensures
        skill.mark(state, theme) == skill.mark(other, theme),
        skill.notice(state, theme) == skill.notice(other, theme),
{
}

proof fn lemma_filter_keeps(all: Seq<Seq<char>>, keep: spec_fn(Seq<char>) -> bool, i: int)
    requires
        0 <= i < all.len(),
        keep(all[i]),
    ensures
        all.filter(keep).contains(all[i]),
    decreases all.len(),
{
    reveal(Seq::filter);
    let rest = all.drop_last();
    if i < rest.len() {
        lemma_filter_keeps(rest, keep, i);
        let j = choose|j: int| 0 <= j < rest.filter(keep).len() && rest.filter(keep)[j] == all[i];
        assert(all.filter(keep)[j] == all[i]);
    } else {
        assert(all.filter(keep).last() == all[i]);
    }
}

/// Only the group that encloses a skill is left out, and only from its own sort.
pub proof fn lemma_only_the_enclosing_group_is_hidden(skill: SkillView, state: SkillRenderState, look: SkillLook, kind: Kind, name: Seq<char>)
    requires
        skill.members(kind, (SkillRenderState { hidden_group: None, ..state }), look).contains(name),
        !state.hides(kind, name),
    ensures
        skill.members(kind, state, look).contains(name),
{
    let all = skill.members(kind, SkillRenderState { hidden_group: None, ..state }, look);
    match state.hidden_group {
        Some((hidden, enclosing)) => {
            if hidden == kind {
                let keep = |n: Seq<char>| n != enclosing@;
                let i = choose|i: int| 0 <= i < all.len() && all[i] == name;
                lemma_filter_keeps(all, keep, i);
            }
        },
        None => {},
    }
}

/// With tags switched off, no density shows a tag.
pub proof fn lemma_hidden_tags_have_no_badges(skill: SkillView, state: SkillRenderState, look: SkillLook)
    requires
        !look.tags_enabled,
    ensures
        skill.members(Kind::Tag, state, look).len() == 0,
{
    reveal(Seq::filter);
}

/// Every density has the same source, badges and mark.
pub proof fn lemma_densities_agree(
    skill: SkillView,
    columns: int,
    selected: bool,
    state: SkillRenderState,
    look: SkillLook,
    summary: Seq<char>,
    full: BadgesView,
    cut: BadgesView,
)
    requires
        columns >= 2,
    ensures
        ({
            let card = skill.card(columns - 2, state, look, summary, full, cut);
            let listed = skill.listed(columns, selected, state, look, summary, full, cut);
            forall|i: int| 0 <= i < 4 ==> #[trigger] listed[i] == seq![
                piece(fitted(pointer(selected && i == 0), columns), look.theme.accent()),
            ] + card[i]
        }),
        skill.compacted(columns, selected, state, look, full, cut)[0][1].span.style
            == skill.card(columns, state, look, summary, full, cut)[0][0].span.style,
        skill.compacted(columns, selected, state, look, full, cut)[0][2].span.style
            == skill.card(columns, state, look, summary, full, cut)[0][1].span.style,
{
}

/// A skill is shown under its own name, or, where it has none, under the last part of its
/// key; its key never changes.
pub proof fn lemma_what_a_skill_is_called(r: SkillRecord)
    ensures
        r.name is Some && trimmed(r.name->0@).len() > 0 ==> shown_name(r) == r.name->0@,
        r.name is None || trimmed(r.name->0@).len() == 0 ==> shown_name(r) == after_last(
            r.key@,
            '/',
        ),
{
}

/// Where a skill comes from is said with the mark of its source and the name that the source
/// is known by.
pub proof fn lemma_what_a_badge_says(r: SkillRecord, icons: Icons)
    ensures
        r.source is Some && r.source->0 is Local ==> badge_of(r, icons) == Some(local(icons)@),
        r.source is Some && !(r.source->0 is Local) && r.source_name is Some ==> badge_of(r, icons)
            == Some(source_mark(icons, r.source->0) + " "@ + r.source_name->0@),
        r.source is Some && !(r.source->0 is Local) && r.source_name is None ==> badge_of(r, icons)
            == Some(source_mark(icons, r.source->0) + " "@ + "Unregistered source"@),
        r.source is None && r.source_name is Some ==> badge_of(r, icons) == Some(
            package(icons)@ + " "@ + r.source_name->0@,
        ),
        r.source is None && r.source_name is None ==> badge_of(r, icons) is None
            && library_source(r, icons) == local(icons)@,
        badge_of(r, icons) is Some ==> library_source(r, icons) == badge_of(r, icons)->0,
{
}

/// How serious a state is: what is missing or cannot be read is an error, what was changed
/// or is not sure a warning, and what is as it was installed is well.
pub proof fn lemma_how_serious_a_status_is(status: SkillStatus)
    ensures
        marked(status).1 == Tone::Healthy <==> status is Local || status is Repository,
        marked(status).1 == Tone::Warning <==> status is MissingBaseline || status is Modified
            || status is Renamed || status is MissingSource,
        marked(status).1 == Tone::Error <==> status is Missing || status is Invalid
            || status is CorruptMeta,
        status is Local || status is Repository || status is MissingBaseline ==> marked(status).0
            == "●"@,
        status is Modified ==> marked(status).0 == "✎"@,
        status is Missing ==> marked(status).0 == "✗"@,
        status is Renamed ==> marked(status).0 == "↪"@,
        status is MissingSource || status is Invalid || status is CorruptMeta ==> marked(status).0
            == "!"@,
{
}

/// A status in words names what is wrong; one that needs no more words is called as it is.
pub proof fn lemma_a_status_in_words(status: SkillStatus, label: Seq<char>)
    ensures
        status is Renamed ==> status_words(status, label) == "renamed? → "@ + status->to@,
        status is Invalid ==> status_words(status, label) == "invalid: "@ + status->reason@,
        status is CorruptMeta ==> status_words(status, label) == "corrupt metadata: "@
            + status->error@,
        status is MissingBaseline ==> status_words(status, label)
            == "repository · missing baseline"@,
        status is Local || status is Repository || status is Modified || status is Missing
            || status is MissingSource ==> status_words(status, label) == label,
{
}

/// A skill of the library is shown with everything that it has: its tags and presets in
/// their order, and a warning where it does not stand well.
pub proof fn lemma_what_is_shown_of_a_skill(r: SkillRecord, standing: Standing, icons: Icons)
    ensures
        ({
            let shown = library_skill(r, standing, icons);
            &&& shown.name == shown_name(r)
            &&& shown.tags == texts(r.tags@)
            &&& shown.presets == texts(r.presets@)
            &&& r.description is Some ==> shown.description == r.description->0@
            &&& r.description is None ==> shown.description == "No description"@
            &&& standing.healthy ==> shown.warning is None
            &&& !standing.healthy ==> shown.warning == Some(standing.label@)
            &&& shown.marker == marked(r.status).0
            &&& shown.tone == marked(r.status).1
        }),
{
}

/// What an agent has under a name is told apart: a link that holds, one that does not, a copy
/// that hides a skill, a link elsewhere, a skill of its own. Only what is wrong warns.
pub proof fn lemma_what_an_agent_has(
    name: Seq<char>,
    description: Option<Seq<char>>,
    state: Option<EntryState>,
)
    ensures
        ({
            let shown = entry_skill(name, description, state);
            &&& shown.name == name
            &&& state == Some(EntryState::Deployed) ==> shown.marker == "✓"@ && shown.tone
                == Tone::Healthy && shown.source == "linked"@ && shown.warning is None
            &&& state == Some(EntryState::Broken) ==> shown.marker == "!"@ && shown.tone
                == Tone::Error && shown.warning == Some("broken link"@)
            &&& state is Some && state->0 is Shadow && state->0->same_content ==> shown.tone
                == Tone::Warning && shown.warning == Some("shadow"@)
            &&& state is Some && state->0 is Shadow && !state->0->same_content ==> shown.tone
                == Tone::Warning && shown.warning == Some("shadow, differs"@)
            &&& state is Some && state->0 is Foreign ==> shown.marker == "→"@ && shown.warning
                == Some("foreign"@)
            &&& state == Some(EntryState::AgentOnly) ==> shown.source == "the agent's own"@
                && shown.warning is None
            &&& state is None ==> shown.marker == "—"@ && shown.warning is None
            &&& description is Some && trimmed(description->0).len() > 0 ==> shown.description
                == description->0
            &&& (description is None || trimmed(description->0).len() == 0) && state == Some(
                EntryState::Broken,
            ) ==> shown.description == "the link points at something the root no longer has"@
            &&& (description is None || trimmed(description->0).len() == 0) && state is Some
                && state->0 is Foreign ==> shown.description == "links outside the root to "@
                + state->0->target@
            &&& (description is None || trimmed(description->0).len() == 0) && state == Some(
                EntryState::AgentOnly,
            ) ==> shown.description == "only in this agent, not in the root"@
            &&& (description is None || trimmed(description->0).len() == 0) && state is None
                ==> shown.description == "No description"@
        }),
{
}

/// A skill that is not deployed says so, unless something more serious is to be said of it.
pub proof fn lemma_undeployed_skills_say_so(skill: SkillView)
    ensures
        skill.warning is Some ==> skill.undeployed() == skill,
        skill.warning is None ==> {
            let shown = skill.undeployed();
            &&& shown.warning == Some("not deployed"@)
            &&& shown.marker == "◌"@
            &&& shown.tone == Tone::Normal
            &&& shown.name == skill.name
            &&& shown.tags == skill.tags
            &&& shown.presets == skill.presets
            &&& shown.description == skill.description
            &&& shown.source == skill.source
        },
{
}

/// Where skills can be chosen the mark says whether this one is.
pub proof fn lemma_the_mark_says_what_is_chosen(skill: SkillView, state: SkillRenderState, theme: Theme)
    ensures
        state.checked == Some(true) ==> skill.mark(state, theme).0 == "[✓] "@,
        state.checked == Some(false) ==> skill.mark(state, theme).0 == "[ ] "@,
        state.checked is None && skill.tone == Tone::Error ==> skill.mark(state, theme) == (
            " "@ + skill.marker + "  "@,
            theme.err(),
        ),
        state.checked is None && (skill.tone == Tone::Healthy || skill.tone == Tone::Normal)
            && state.decoration is None && !state.update_available ==> skill.mark(state, theme).0
            == " "@ + skill.marker + "  "@,
        state.checked == Some(true) && skill.warning is None ==> skill.mark(state, theme).1
            == theme.accent(),
        state.checked == Some(false) && skill.warning is None ==> skill.mark(state, theme).1
            == theme.dim(),
{
}

/// What is said of a skill: its error before all, then what wants attention, then its
/// warning, then that there is an update.
pub proof fn lemma_what_is_said_of_a_skill(skill: SkillView, state: SkillRenderState, theme: Theme)
    ensures
        skill.tone == Tone::Error && skill.warning is Some ==> skill.notice(state, theme) == Some(
            (" ! "@ + skill.warning->0, theme.err()),
        ),
        skill.tone != Tone::Error && state.decoration is Some && state.decoration->0 is Attention
            ==> skill.notice(state, theme) == Some(
            (" "@ + state.decoration->0->Attention_0@, theme.warn()),
        ),
        skill.tone == Tone::Warning && skill.warning is Some && !(state.decoration is Some
            && state.decoration->0 is Attention) ==> skill.notice(state, theme) == Some(
            (" ! "@ + skill.warning->0, theme.warn()),
        ),
        (skill.tone == Tone::Healthy || skill.tone == Tone::Normal) && !(state.decoration is Some
            && state.decoration->0 is Attention) && (state.update_available || (state.decoration
            is Some && state.decoration->0 is Update)) ==> skill.notice(state, theme) == Some(
            (" Update"@, theme.accent()),
        ),
        (skill.tone == Tone::Healthy || skill.tone == Tone::Normal) && state.decoration is None
            && !state.update_available ==> skill.notice(state, theme) is None,
{
}

/// Behind the source stands where a search found something, unless that is the kind of the
/// source itself.
pub proof fn lemma_what_stands_behind_the_source(skill: SkillView, state: SkillRenderState)
    ensures
        state.context is None ==> skill.source_text(state) == skill.source,
        state.context is Some && state.context->0@.len() > 0 && state.context->0@ != "local"@
            && state.context->0@ != "git"@ && state.context->0@ != "archive"@
            ==> skill.source_text(state) == skill.source + " · "@ + state.context->0@,
        state.context is Some && (state.context->0@.len() == 0 || state.context->0@ == "local"@
            || state.context->0@ == "git"@ || state.context->0@ == "archive"@)
            ==> skill.source_text(state) == skill.source,
{
}

/// A card has four lines: who it is, two of its description, and where it belongs. In a list
/// the selected one has a mark before its first line, and no other.
pub proof fn lemma_the_lines_of_a_card(
    skill: SkillView,
    columns: int,
    state: SkillRenderState,
    look: SkillLook,
    summary: Seq<char>,
    full: BadgesView,
    cut: BadgesView,
    selected: bool,
    i: int,
)
    requires
        0 <= i < 4,
    ensures
        ({
            let card = skill.card(columns, state, look, summary, full, cut);
            &&& card.len() == 4
            &&& card[0].last().span.content == padded(
                skill.name,
                monus(columns, look.marker_width as int),
            ) || skill.notice(state, look.theme) is Some
            &&& card[1].len() == 1
            &&& card[1][0].span.content == two_lines(summary, columns).0
            &&& card[2].len() == 1
            &&& card[2][0].span.content == two_lines(summary, columns).1
        }),
        ({
            let rows = skill.listed(columns, selected, state, look, summary, full, cut);
            let card = skill.card(monus(columns, 2), state, look, summary, full, cut);
            &&& rows.len() == 4
            &&& rows[i].len() == card[i].len() + 1
            &&& rows[i].skip(1) == card[i]
            &&& rows[i][0].span.content == fitted(pointer(selected && i == 0), columns)
        }),
{
    let rows = skill.listed(columns, selected, state, look, summary, full, cut);
    let card = skill.card(monus(columns, 2), state, look, summary, full, cut);
    assert(rows[i].skip(1) =~= card[i]);
}

/// The name in a dense row is never wider than it is or than was asked for, and never takes
/// more than there is.
pub proof fn lemma_a_name_keeps_to_its_room(
    content: int,
    named: int,
    wanted: int,
    grouped: bool,
    asked: int,
)
    requires
        0 <= content,
        0 <= named,
        0 <= wanted,
        0 <= asked,
    ensures
        0 <= name_room(content, named, wanted, grouped, asked) <= content,
        name_room(content, named, wanted, grouped, asked) <= named,
        name_room(content, named, wanted, grouped, asked) <= asked,
        wanted == 0 && named <= content && named <= asked ==> name_room(
            content,
            named,
            wanted,
            grouped,
            asked,
        ) == named,
        grouped && content > 0 && asked >= 8 && named >= 8 && content >= 8 ==> name_room(
            content,
            named,
            wanted,
            grouped,
            asked,
        ) >= 8,
{
}

/// The badges get what the source leaves: half each where there are both sorts, and all of
/// it where there is one.
pub proof fn lemma_badges_share_their_room(
    skill: SkillView,
    columns: int,
    state: SkillRenderState,
    look: SkillLook,
    full: BadgesView,
)
    requires
        0 <= columns,
        skill.rooms(columns, state, look, full) is Some,
    ensures
        ({
            let rooms = skill.rooms(columns, state, look, full)->0;
            let room = monus(columns, skill.cut_source(state, columns) + 1);
            let tags = skill.members(Kind::Tag, state, look).len();
            let presets = skill.members(Kind::Preset, state, look).len();
            &&& skill.cut_source(state, columns) <= columns / 3
            &&& tags == 0 ==> rooms == (0int, room)
            &&& presets == 0 ==> rooms == (room, 0int)
            &&& tags > 0 && presets > 0 ==> {
                &&& rooms.0 + rooms.1 == monus(room, 1)
                &&& 0 <= rooms.1 - rooms.0 <= 1
            }
        }),
{
}

} // verus!
