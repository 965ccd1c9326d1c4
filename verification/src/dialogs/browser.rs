//! The list of repositories that skills were installed from.

use crate::app::{both, complain, complains, nothing, only, Action, Hint};
use crate::event::Task;
use crate::geometry::{clamp16, max16, min16, monus, plus16, spec_max, spec_min, Rect};
use crate::icons::{package, source, source_icon, source_mark, source_text};
use crate::keymap::{KeyCode, KeyEvent, MouseEvent, MouseKind};
use crate::measure::{fit, fitted, lower, to_lowercase};
use crate::model::{Icons, RepositoryRecord, SkillRecord, Snapshot};
use crate::repository_picker::{alias_in, alias_of};
use crate::text::{
    cat2, cat3, cat5, chars_of, contains, decimal, has_part, is_white, is_white_space, numeral,
    same_text, texts, trim, trimmed,
};
use crate::theme::Theme;
use crate::ui::{
    framed, marked_list, plain_run, run, shown, Draw, DrawView, Line, Lines, Scene, Span, SpanView, Style,
};
use crate::widgets::{
    centered, empty_input, first_of, is_multiline, middle_of, moved, paste_refused, Input,
    InputView, ListNav,
};
use vstd::prelude::*;

verus! {

/// One row that can be chosen.
#[derive(Debug)]
pub struct PickItem {
    /// What is done with; not always what is shown.
    pub id: String,
    pub label: String,
    pub sub: String,
}

/// A row holds what was typed.
pub open spec fn item_holds(item: PickItem, query: Seq<char>) -> bool {
    query.len() == 0 || has_part(lower(item.label@), query) || has_part(lower(item.sub@), query)
}

/// The first rows that hold what was typed.
pub open spec fn held_items(items: Seq<PickItem>, query: Seq<char>, n: int) -> Seq<usize>
    decreases n,
{
    if n <= 0 {
        Seq::empty()
    } else if item_holds(items[n - 1], query) {
        held_items(items, query, n - 1).push((n - 1) as usize)
    } else {
        held_items(items, query, n - 1)
    }
}

/// The rows that hold what was typed.
pub open spec fn narrowed(items: Seq<PickItem>, text: Seq<char>) -> Seq<usize> {
    held_items(items, lower(trimmed(text)), items.len() as int)
}

/// Narrows the rows to those whose label or sublabel holds a text.
pub fn refilter(query: &str, items: &Vec<PickItem>) -> (r: Vec<usize>)
    ensures
        r@ == narrowed(items@, query@),
{
    let q = to_lowercase(trim(query).as_str());
    let all = chars_of(q.as_str()).len() == 0;
    let mut shown: Vec<usize> = Vec::new();
    let mut i: usize = 0;
    while i < items.len()
        invariant
            i <= items.len(),
            all == (q@.len() == 0),
            shown@ == held_items(items@, q@, i as int),
        decreases items.len() - i,
    {
        if all || contains(to_lowercase(items[i].label.as_str()).as_str(), q.as_str()) || contains(
            to_lowercase(items[i].sub.as_str()).as_str(),
            q.as_str(),
        ) {
            shown.push(i);
        }
        i = i + 1;
    }
    shown
}

proof fn lemma_held_bounds(items: Seq<PickItem>, query: Seq<char>, n: int)
    requires
        0 <= n <= items.len() <= usize::MAX,
    ensures
        forall|i: int|
            0 <= i < held_items(items, query, n).len() ==> #[trigger] held_items(
                items,
                query,
                n,
            )[i] < n,
    decreases n,
{
    if n > 0 {
        lemma_held_bounds(items, query, n - 1);
        let before = held_items(items, query, n - 1);
        let got = held_items(items, query, n);
        assert forall|i: int| 0 <= i < got.len() implies #[trigger] got[i] < n by {
            if i < before.len() {
                assert(got[i] == before[i]);
            }
        }
    }
}

// ---- what is known of a repository -------------------------------------------

/// The first repository, from `at` on, with this alias.
pub open spec fn repository_from(list: Seq<RepositoryRecord>, alias: Seq<char>, at: int) -> Option<int>
    decreases list.len() - at,
{
    if at < 0 || at >= list.len() {
        None
    } else if list[at].alias@ == alias {
        Some(at)
    } else {
        repository_from(list, alias, at + 1)
    }
}

pub open spec fn has_white(s: Seq<char>) -> bool {
    exists|i: int| 0 <= i < s.len() && is_white(#[trigger] s[i])
}

/// The query for the skills of a source; a name with white space in it is quoted.
pub open spec fn source_token(name: Seq<char>) -> Seq<char> {
    if has_white(name) {
        "repo:\""@ + name + "\""@
    } else {
        "repo:"@ + name
    }
}

pub fn source_query_token(name: &str) -> (r: String)
    ensures
        r@ == source_token(name@),
{
    let chars = chars_of(name);
    let mut white = false;
    let mut i: usize = 0;
    while i < chars.len()
        invariant
            i <= chars.len(),
            chars@ == name@,
            white == exists|k: int| 0 <= k < i && is_white(#[trigger] name@[k]),
        decreases chars.len() - i,
    {
        if is_white_space(chars[i]) {
            assert(is_white(name@[i as int]));
            white = true;
        }
        i = i + 1;
    }
    if white {
        cat3("repo:\"", name, "\"")
    } else {
        cat2("repo:", name)
    }
}

/// The query for the skills of a repository, by the name that it is shown under.
pub open spec fn query_for(snap: Snapshot, alias: Seq<char>) -> Seq<char> {
    source_token(
        match repository_from(snap.repositories@, alias, 0) {
            Some(i) => snap.repositories@[i].display_name@,
            None => alias,
        },
    )
}

pub fn repository_query(alias: &str, snap: &Snapshot) -> (r: String)
    ensures
        r@ == query_for(*snap, alias@),
{
    let mut i: usize = 0;
    while i < snap.repositories.len()
        invariant
            i <= snap.repositories.len(),
            repository_from(snap.repositories@, alias@, 0) == repository_from(
                snap.repositories@,
                alias@,
                i as int,
            ),
        decreases snap.repositories.len() - i,
    {
        if same_text(snap.repositories[i].alias.as_str(), alias) {
            return source_query_token(snap.repositories[i].display_name.as_str());
        }
        i = i + 1;
    }
    source_query_token(alias)
}

/// The skills of a repository.
pub open spec fn keys_from(skills: Seq<SkillRecord>, alias: Seq<char>) -> Seq<Seq<char>>
    decreases skills.len(),
{
    if skills.len() == 0 {
        Seq::empty()
    } else if alias_in(skills.last().key@) == Some(alias) {
        keys_from(skills.drop_last(), alias).push(skills.last().key@)
    } else {
        keys_from(skills.drop_last(), alias)
    }
}

/// The skills of a repository.
pub fn repository_keys(skills: &Vec<SkillRecord>, alias: &str) -> (r: Vec<String>)
    ensures
        texts(r@) == keys_from(skills@, alias@),
{
    let mut out: Vec<String> = Vec::new();
    let mut i: usize = 0;
    assert(skills@.take(0) =~= Seq::empty());
    assert(texts(out@) =~= Seq::empty());
    while i < skills.len()
        invariant
            i <= skills.len(),
            texts(out@) == keys_from(skills@.take(i as int), alias@),
        decreases skills.len() - i,
    {
        assert(skills@.take(i + 1).drop_last() =~= skills@.take(i as int));
        let belongs = match alias_of(skills[i].key.as_str()) {
            Some(own) => same_text(own.as_str(), alias),
            None => false,
        };
        if belongs {
            let key = skills[i].key.clone();
            assert(texts(out@.push(key)) =~= texts(out@).push(key@));
            out.push(key);
        }
        i = i + 1;
    }
    assert(skills@.take(i as int) =~= skills@);
    out
}

/// The row of a repository.
pub open spec fn repository_row(snap: Snapshot, icons: Icons, record: RepositoryRecord, item: PickItem) -> bool {
    &&& item.id == record.alias
    &&& item.label@ == source_mark(icons, record.source) + " "@ + record.display_name@
    &&& item.sub@ == package(icons)@ + " "@ + numeral(
        keys_from(snap.skills@, record.alias@).len() as int,
    ) + " skills · "@ + source_text(icons, record.source)
}

// ---- the list ----------------------------------------------------------------

#[derive(Debug)]
pub struct Browser {
    pub title: String,
    pub input: Input,
    pub items: Vec<PickItem>,
    /// Typing edits the filter; otherwise keys are for the rows.
    pub input_focus: bool,
    pub input_rect: Rect,
    /// The rows that hold what was typed.
    pub shown: Vec<usize>,
    pub list: ListNav,
    pub rect: Rect,
}

pub ghost struct BrowserView {
    pub title: Seq<char>,
    pub input: InputView,
    pub items: Seq<PickItem>,
    pub input_focus: bool,
    pub input_rect: Rect,
    pub shown: Seq<usize>,
    pub list: ListNav,
    pub rect: Rect,
}

impl View for Browser {
    type V = BrowserView;

    open spec fn view(&self) -> BrowserView {
        BrowserView {
            title: self.title@,
            input: self.input@,
            items: self.items@,
            input_focus: self.input_focus,
            input_rect: self.input_rect,
            shown: self.shown@,
            list: self.list,
            rect: self.rect,
        }
    }
}

/// What the list asks of the application.
pub ghost enum BrowserReply {
    Nothing,
    Close,
    Complain(Seq<char>),
    Browse(Seq<char>),
    Check(Seq<Seq<char>>),
    Update(Seq<Seq<char>>),
}

impl BrowserReply {
    pub open spec fn told(self, actions: Seq<Action>) -> bool {
        match self {
            BrowserReply::Nothing => actions.len() == 0,
            BrowserReply::Close => actions == seq![Action::CloseModal],
            BrowserReply::Complain(text) => complains(actions, text),
            BrowserReply::Browse(text) => {
                &&& actions.len() == 2
                &&& actions[0] == Action::CloseModal
                &&& (actions[1] matches Action::Search { query, focus_list } && query@ == text
                    && focus_list)
            },
            BrowserReply::Check(keys) => actions.len() == 1 && (actions[0] matches Action::Spawn(
                Task::Check(list),
            ) && texts(list@) == keys),
            BrowserReply::Update(keys) => {
                &&& actions.len() == keys.len()
                &&& forall|i: int|
                    0 <= i < actions.len() ==> (#[trigger] actions[i] matches Action::Spawn(
                        Task::Prepare(key),
                    ) && key@ == keys[i])
            },
        }
    }
}

impl BrowserView {
    pub open spec fn valid(self) -> bool {
        &&& self.input.valid()
        &&& forall|i: int| 0 <= i < self.shown.len() ==> #[trigger] self.shown[i] < self.items.len()
    }

    pub open spec fn refiltered(self) -> BrowserView {
        let shown = narrowed(self.items, self.input.text);
        BrowserView {
            shown,
            list: ListNav { selected: first_of(shown.len() as int), ..self.list },
            ..self
        }
    }

    pub open spec fn with_selected(self, selected: Option<usize>) -> BrowserView {
        BrowserView { list: ListNav { selected, ..self.list }, ..self }
    }

    /// The selected row.
    pub open spec fn chosen(self) -> Option<Seq<char>> {
        match self.list.selected {
            Some(i) => if i < self.shown.len() {
                Some(self.items[self.shown[i as int] as int].id@)
            } else {
                None
            },
            None => None,
        }
    }

    /// The key is for the selected repository.
    pub open spec fn operates(self, code: KeyCode) -> bool {
        self.chosen() is Some && (code == KeyCode::Enter || (!self.input_focus && (code
            == KeyCode::Char('u') || code == KeyCode::Char('U'))))
    }

    /// What a key does.
    pub open spec fn keyed(self, key: KeyEvent, snap: Snapshot) -> (BrowserView, BrowserReply) {
        let code = key.code;
        let n = self.shown.len() as int;
        if code == KeyCode::Char('/') && !self.input_focus {
            (BrowserView { input_focus: true, ..self }, BrowserReply::Nothing)
        } else if self.operates(code) {
            let alias = self.chosen()->0;
            (
                self,
                if code == KeyCode::Enter {
                    BrowserReply::Browse(query_for(snap, alias))
                } else if code == KeyCode::Char('u') {
                    BrowserReply::Check(keys_from(snap.skills@, alias))
                } else {
                    BrowserReply::Update(keys_from(snap.skills@, alias))
                },
            )
        } else if code == KeyCode::Esc {
            (self, BrowserReply::Close)
        } else if code == KeyCode::Down || (code == KeyCode::Char('n') && key.modifiers.control) {
            if self.input_focus {
                (BrowserView { input_focus: false, ..self }, BrowserReply::Nothing)
            } else {
                (self.with_selected(moved(self.list.selected, 1, n)), BrowserReply::Nothing)
            }
        } else if code == KeyCode::Up || (code == KeyCode::Char('p') && key.modifiers.control) {
            if self.input_focus || self.list.selected == Some(0usize) {
                (BrowserView { input_focus: true, ..self }, BrowserReply::Nothing)
            } else {
                (self.with_selected(moved(self.list.selected, -1, n)), BrowserReply::Nothing)
            }
        } else if self.input_focus {
            let after = BrowserView { input: self.input.keyed(key), ..self };
            (
                if self.input.edits(key) {
                    after.refiltered()
                } else {
                    after
                },
                BrowserReply::Nothing,
            )
        } else {
            (self, BrowserReply::Nothing)
        }
    }

    /// A press inside the dialog.
    pub open spec fn pressed(self, event: MouseEvent, snap: Snapshot) -> (BrowserView, BrowserReply) {
        let x = event.column as int;
        let y = event.row as int;
        if !self.rect.has(x, y) {
            (self, BrowserReply::Close)
        } else if self.input_rect.has(x, y) {
            (
                BrowserView { input_focus: true, input: self.input.clicked(x), ..self },
                BrowserReply::Nothing,
            )
        } else {
            match self.list.hit(y, self.shown.len() as int) {
                Some(at) => {
                    let after = BrowserView {
                        input_focus: false,
                        ..self.with_selected(Some(at))
                    };
                    (
                        after,
                        if event.repeated {
                            BrowserReply::Browse(query_for(snap, after.chosen()->0))
                        } else {
                            BrowserReply::Nothing
                        },
                    )
                },
                None => (self, BrowserReply::Nothing),
            }
        }
    }

    /// What the mouse does.
    pub open spec fn moused(self, event: MouseEvent, snap: Snapshot) -> (BrowserView, BrowserReply) {
        let over = self.list.rows.has(event.column as int, event.row as int);
        let n = self.shown.len() as int;
        let listing = BrowserView { input_focus: false, ..self };
        match event.kind {
            MouseKind::ScrollUp => if over {
                (listing.with_selected(moved(self.list.selected, -3, n)), BrowserReply::Nothing)
            } else {
                (self, BrowserReply::Nothing)
            },
            MouseKind::ScrollDown => if over {
                (listing.with_selected(moved(self.list.selected, 3, n)), BrowserReply::Nothing)
            } else {
                (self, BrowserReply::Nothing)
            },
            MouseKind::Down => self.pressed(event, snap),
            _ => (self, BrowserReply::Nothing),
        }
    }

    /// What a paste does.
    pub open spec fn pasted(self, text: Seq<char>) -> (BrowserView, BrowserReply) {
        if !self.input_focus {
            (self, BrowserReply::Nothing)
        } else if is_multiline(text) {
            (self, BrowserReply::Complain(paste_refused()))
        } else {
            let after = BrowserView { input: self.input.with_pasted(text), ..self };
            (
                if text.len() > 0 {
                    after.refiltered()
                } else {
                    after
                },
                BrowserReply::Nothing,
            )
        }
    }

    pub open spec fn hint_list(self) -> Seq<Hint> {
        if self.input_focus {
            seq![("type", "filter"), ("↓", "list"), ("Enter", "browse"), ("Esc", "close")]
        } else {
            seq![
                ("Enter", "browse"),
                ("u", "check repo"),
                ("U", "update repo"),
                ("↑↓", "move"),
                ("/", "filter"),
                ("Esc", "close"),
            ]
        }
    }

    pub open spec fn rect_in(self, area: Rect) -> Rect {
        middle_of(
            area,
            76,
            spec_max(
                8,
                spec_min(
                    plus16(spec_min(self.shown.len() as int, 65535), 5),
                    monus(area.height as int, 4),
                ),
            ),
        )
    }

    pub open spec fn field_in(inner: Rect) -> Rect {
        Rect::at(plus16(inner.x as int, 1), inner.y as int, monus(inner.width as int, 2), 1)
    }

    pub open spec fn list_in(inner: Rect) -> Rect {
        Rect::at(
            inner.x as int,
            plus16(inner.y as int, 2),
            inner.width as int,
            monus(inner.height as int, 2),
        )
    }

    /// The list once it is drawn.
    pub open spec fn list_at(self, inner: Rect) -> ListNav {
        ListNav { rows: BrowserView::list_in(inner), ..self.list }.drawn(self.shown.len() as int)
    }

    pub open spec fn placed(self, area: Rect) -> BrowserView {
        let rect = self.rect_in(area);
        let inner = rect.inside();
        BrowserView {
            rect,
            input_rect: BrowserView::field_in(inner),
            input: InputView { field: BrowserView::field_in(inner), ..self.input },
            list: self.list_at(inner),
            ..self
        }
    }

    pub open spec fn row(item: PickItem, width: int, theme: Theme) -> Seq<SpanView> {
        seq![
            plain_run("  "@),
            plain_run(fitted(item.label@, 26)),
            plain_run("  "@),
            run(fitted(item.sub@, monus(width, 32)), theme.dim()),
        ]
    }

    pub open spec fn rows(self, width: int, theme: Theme) -> Seq<Seq<SpanView>> {
        self.shown.map_values(|at: usize| BrowserView::row(self.items[at as int], width, theme))
    }

    pub open spec fn scene(self, area: Rect, theme: Theme) -> Seq<DrawView> {
        let rect = self.rect_in(area);
        let inner = rect.inside();
        let at = BrowserView::list_in(inner);
        let base = seq![
            DrawView::Clear(rect),
            framed(rect, self.title),
            DrawView::Field {
                rect: BrowserView::field_in(inner),
                value: self.input.text,
                cursor: self.input.cursor as usize,
                focused: self.input_focus,
                placeholder: "type to filter…"@,
            },
            marked_list(
                self.list_at(inner),
                self.rows(at.width as int, theme),
                if self.input_focus {
                    theme.dim()
                } else {
                    theme.selected()
                },
                "▸ "@,
            ),
        ];
        if self.shown.len() == 0 {
            base.push(
                shown(at, seq![seq![run("nothing matches"@, theme.dim())]], Style::plain()),
            )
        } else {
            base
        }
    }
}

/// The numbers of the first rows.
pub open spec fn all_rows(n: nat) -> Seq<usize> {
    Seq::new(n, |i: int| i as usize)
}

/// A list in which nothing was typed yet.
pub open spec fn untouched(title: Seq<char>, items: Seq<PickItem>) -> BrowserView {
    BrowserView {
        title,
        input: empty_input(),
        items,
        input_focus: true,
        input_rect: Rect::zero(),
        shown: all_rows(items.len()),
        list: ListNav { selected: first_of(items.len() as int), ..ListNav::empty() },
        rect: Rect::zero(),
    }
}

/// The list shows the repositories of the library.
pub open spec fn lists_repositories(view: BrowserView, snap: Snapshot, icons: Icons) -> bool {
    &&& view == untouched(" sources "@, view.items)
    &&& view.items.len() == snap.repositories@.len()
    &&& forall|i: int|
        0 <= i < view.items.len() ==> repository_row(
            snap,
            icons,
            snap.repositories@[i],
            #[trigger] view.items[i],
        )
}

impl Browser {
    pub fn new(title: String, items: Vec<PickItem>) -> (r: Browser)
        ensures
            r@ == untouched(title@, items@),
            r@.valid(),
    {
        let mut shown: Vec<usize> = Vec::new();
        let mut i: usize = 0;
        while i < items.len()
            invariant
                i <= items.len(),
                shown@.len() == i,
                forall|k: int| 0 <= k < i ==> #[trigger] shown@[k] == k,
            decreases items.len() - i,
        {
            shown.push(i);
            i = i + 1;
        }
        let mut list = ListNav::empty();
        list.clamp(shown.len());
        let browser = Browser {
            title,
            input: Input::empty(),
            items,
            input_focus: true,
            input_rect: Rect::zero(),
            shown,
            list,
            rect: Rect::zero(),
        };
        assert(browser@.shown =~= all_rows(items@.len()));
        browser
    }

    /// The repositories of the library.
    pub fn repositories(snap: &Snapshot, icons: Icons) -> (r: Browser)
        ensures
            lists_repositories(r@, *snap, icons),
            r@.valid(),
    {
        let mut items: Vec<PickItem> = Vec::new();
        let mut i: usize = 0;
        while i < snap.repositories.len()
            invariant
                i <= snap.repositories.len(),
                items@.len() == i,
                forall|k: int|
                    0 <= k < i ==> repository_row(
                        *snap,
                        icons,
                        snap.repositories@[k],
                        #[trigger] items@[k],
                    ),
            decreases snap.repositories.len() - i,
        {
            let record = &snap.repositories[i];
            let keys = repository_keys(&snap.skills, record.alias.as_str());
            let count = keys.len();
            assert(texts(keys@).len() == keys@.len());
            let label = cat3(
                source_icon(icons, &record.source),
                " ",
                record.display_name.as_str(),
            );
            let sub = cat5(
                package(icons),
                " ",
                decimal(count).as_str(),
                " skills · ",
                source(icons, &record.source).as_str(),
            );
            items.push(PickItem { id: record.alias.clone(), label, sub });
            i = i + 1;
        }
        Browser::new(" sources ".to_owned(), items)
    }

    fn narrow(&mut self)
        requires
            old(self)@.input.valid(),
        ensures
            final(self)@ == old(self)@.refiltered(),
            final(self)@.valid(),
    {
        let text = self.input.value();
        self.shown = refilter(text.as_str(), &self.items);
        self.list.first(self.shown.len());
        proof {
            let n = self.items.len();
            lemma_held_bounds(
                self.items@,
                lower(trimmed(text@)),
                self.items@.len() as int,
            );
        }
    }

    fn selected_alias(&self) -> (r: Option<String>)
        requires
            self@.valid(),
        ensures
            crate::text::said(r) == self@.chosen(),
    {
        match self.list.selected {
            Some(i) => if i < self.shown.len() {
                assert(self@.shown[i as int] < self@.items.len());
                Some(self.items[self.shown[i]].id.clone())
            } else {
                None
            },
            None => None,
        }
    }

    fn browse(alias: &str, snap: &Snapshot) -> (r: Vec<Action>)
        ensures
            BrowserReply::Browse(query_for(*snap, alias@)).told(r@),
    {
        both(
            Action::CloseModal,
            Action::Search { query: repository_query(alias, snap), focus_list: true },
        )
    }

    fn update_all(keys: &Vec<String>) -> (r: Vec<Action>)
        ensures
            BrowserReply::Update(texts(keys@)).told(r@),
    {
        let mut out: Vec<Action> = Vec::new();
        let mut i: usize = 0;
        while i < keys.len()
            invariant
                i <= keys.len(),
                out@.len() == i,
                forall|k: int|
                    0 <= k < i ==> (#[trigger] out@[k] matches Action::Spawn(Task::Prepare(key))
                        && key@ == texts(keys@)[k]),
            decreases keys.len() - i,
        {
            out.push(Action::Spawn(Task::Prepare(keys[i].clone())));
            i = i + 1;
        }
        out
    }

    pub fn key(&mut self, key: KeyEvent, snap: &Snapshot) -> (r: Vec<Action>)
        requires
            old(self)@.valid(),
        ensures
            final(self)@ == old(self)@.keyed(key, *snap).0,
            old(self)@.keyed(key, *snap).1.told(r@),
            final(self)@.valid(),
    {
        let code = key.code;
        if code == KeyCode::Char('/') && !self.input_focus {
            self.input_focus = true;
            assert(self@.valid());
            return nothing();
        }
        if code == KeyCode::Enter || (!self.input_focus && (code == KeyCode::Char('u') || code
            == KeyCode::Char('U'))) {
            match self.selected_alias() {
                Some(alias) => {
                    if code == KeyCode::Enter {
                        return Browser::browse(alias.as_str(), snap);
                    }
                    let keys = repository_keys(&snap.skills, alias.as_str());
                    if code == KeyCode::Char('u') {
                        return only(Action::Spawn(Task::Check(keys)));
                    }
                    return Browser::update_all(&keys);
                },
                None => {},
            }
        }
        if code == KeyCode::Esc {
            return only(Action::CloseModal);
        }
        if code == KeyCode::Down || (code == KeyCode::Char('n') && key.modifiers.control) {
            if self.input_focus {
                self.input_focus = false;
            } else {
                self.list.move_by(1, self.shown.len());
            }
        } else if code == KeyCode::Up || (code == KeyCode::Char('p') && key.modifiers.control) {
            let first = match self.list.selected {
                Some(at) => at == 0,
                None => false,
            };
            if self.input_focus || first {
                self.input_focus = true;
            } else {
                self.list.move_by(-1, self.shown.len());
            }
        } else if self.input_focus {
            if self.input.handle_key(key) {
                self.narrow();
            }
        }
        assert(self@.valid());
        nothing()
    }

    fn press(&mut self, event: MouseEvent, snap: &Snapshot) -> (r: Vec<Action>)
        requires
            old(self)@.valid(),
        ensures
            final(self)@ == old(self)@.pressed(event, *snap).0,
            old(self)@.pressed(event, *snap).1.told(r@),
            final(self)@.valid(),
    {
        let (x, y): (u16, u16) = (event.column, event.row);
        if !self.rect.contains(x, y) {
            return only(Action::CloseModal);
        }
        if self.input_rect.contains(x, y) {
            self.input_focus = true;
            self.input.click(x);
            assert(self@.valid());
            return nothing();
        }
        match self.list.click(y, self.shown.len(), event.repeated) {
            Some((_, double)) => {
                self.input_focus = false;
                assert(self@.valid());
                if double {
                    match self.selected_alias() {
                        Some(alias) => {
                            return Browser::browse(alias.as_str(), snap);
                        },
                        None => {},
                    }
                }
            },
            None => {},
        }
        assert(self@.valid());
        nothing()
    }

    pub fn mouse(&mut self, event: MouseEvent, snap: &Snapshot) -> (r: Vec<Action>)
        requires
            old(self)@.valid(),
        ensures
            final(self)@ == old(self)@.moused(event, *snap).0,
            old(self)@.moused(event, *snap).1.told(r@),
            final(self)@.valid(),
    {
        match event.kind {
            MouseKind::ScrollUp | MouseKind::ScrollDown => {
                if self.list.rows.contains(event.column, event.row) {
                    self.input_focus = false;
                    if event.kind == MouseKind::ScrollDown {
                        self.list.move_by(3, self.shown.len());
                    } else {
                        self.list.move_by(-3, self.shown.len());
                    }
                }
            },
            MouseKind::Down => {
                return self.press(event, snap);
            },
            _ => {},
        }
        assert(self@.valid());
        nothing()
    }

    pub fn paste(&mut self, text: &str) -> (r: Vec<Action>)
        requires
            old(self)@.valid(),
        ensures
            final(self)@ == old(self)@.pasted(text@).0,
            old(self)@.pasted(text@).1.told(r@),
            final(self)@.valid(),
    {
        if !self.input_focus {
            return nothing();
        }
        match self.input.paste(text) {
            Ok(changed) => {
                assert(self@.shown == old(self)@.shown && self@.items == old(self)@.items);
                if changed {
                    self.narrow();
                }
                nothing()
            },
            Err(why) => complain(why),
        }
    }

    pub fn hints(&self) -> (r: Vec<Hint>)
        ensures
            r@ == self@.hint_list(),
    {
        if self.input_focus {
            vec![("type", "filter"), ("↓", "list"), ("Enter", "browse"), ("Esc", "close")]
        } else {
            vec![
                ("Enter", "browse"),
                ("u", "check repo"),
                ("U", "update repo"),
                ("↑↓", "move"),
                ("/", "filter"),
                ("Esc", "close"),
            ]
        }
    }

    fn draw_rows(&self, wide: u16, theme: &Theme) -> (r: Lines)
        requires
            self@.valid(),
        ensures
            r@ == self@.rows(wide as int, *theme),
    {
        let ghost all = self@.rows(wide as int, *theme);
        let mut lines = Lines::new();
        let mut i: usize = 0;
        while i < self.shown.len()
            invariant
                i <= self.shown.len(),
                self@.valid(),
                all == self@.rows(wide as int, *theme),
                lines@ == all.take(i as int),
            decreases self.shown.len() - i,
        {
            assert(self@.shown[i as int] < self@.items.len());
            let item = &self.items[self.shown[i]];
            let mut line = Line::new();
            line.push(Span::raw("  "));
            line.push(Span::raw(fit(item.label.as_str(), 26).as_str()));
            line.push(Span::raw("  "));
            line.push(
                Span::of(
                    fit(item.sub.as_str(), wide.saturating_sub(32) as usize),
                    theme.dim(),
                ),
            );
            assert(line@ =~= all[i as int]);
            lines.push(line);
            i = i + 1;
            assert(lines@ =~= all.take(i as int));
        }
        assert(lines@ =~= all);
        lines
    }

    #[verifier::rlimit(50)]
    pub fn draw(&mut self, area: Rect, theme: &Theme) -> (r: Scene)
        requires
            area.in_range(),
            old(self)@.valid(),
        ensures
            final(self)@ == old(self)@.placed(area),
            final(self)@.valid(),
            r@ == old(self)@.scene(area, *theme),
    {
        let tall: u16 = max16(
            8,
            min16(
                clamp16(self.shown.len()).saturating_add(5),
                area.height.saturating_sub(4),
            ),
        );
        let rect = centered(area, 76, tall);
        let inner = rect.inner();
        let field = Rect::new(
            inner.x.saturating_add(1),
            inner.y,
            inner.width.saturating_sub(2),
            1,
        );
        let at = Rect::new(
            inner.x,
            inner.y.saturating_add(2),
            inner.width,
            inner.height.saturating_sub(2),
        );
        let mut scene = Scene::new();
        scene.clear(rect);
        scene.frame(rect, self.title.as_str());
        scene.push(
            Draw::Field {
                rect: field,
                value: self.input.value(),
                cursor: self.input.cursor,
                focused: self.input_focus,
                placeholder: "type to filter…".to_owned(),
            },
        );
        let rows = self.draw_rows(at.width, theme);
        self.list.rows = at;
        self.list.show(self.shown.len());
        scene.marked_list(
            self.list,
            rows,
            if self.input_focus {
                theme.dim()
            } else {
                theme.selected()
            },
            "▸ ",
        );
        if self.shown.len() == 0 {
            scene.line(at, Line::styled("nothing matches", theme.dim()), Style::plain());
        }
        self.rect = rect;
        self.input_rect = field;
        self.input.place(field);
        assert(self@.valid());
        scene
    }
}

// ---- laws --------------------------------------------------------------------

/// The first step down only enters the rows, and the step up from the first row only leaves
/// them: neither skips a row.
pub proof fn lemma_focus_moves_before_rows(browser: BrowserView, down: KeyEvent, up: KeyEvent, snap: Snapshot)
    requires
        down.code == KeyCode::Down,
        up.code == KeyCode::Up,
    ensures
        browser.input_focus ==> browser.keyed(down, snap).0 == (BrowserView {
            input_focus: false,
            ..browser
        }),
        !browser.input_focus && browser.list.selected == Some(0usize) ==> browser.keyed(
            up,
            snap,
        ).0 == (BrowserView { input_focus: true, ..browser }),
{
}

/// The wheel beside the rows moves nothing.
pub proof fn lemma_wheel_beside_rows(browser: BrowserView, event: MouseEvent, snap: Snapshot)
    requires
        event.kind == MouseKind::ScrollDown || event.kind == MouseKind::ScrollUp,
        !browser.list.rows.has(event.column as int, event.row as int),
    ensures
        browser.moused(event, snap) == (browser, BrowserReply::Nothing),
{
}

/// Nothing typed shows every row.
pub proof fn lemma_empty_filter_shows_all(items: Seq<PickItem>, n: int)
    requires
        0 <= n <= items.len(),
    ensures
        held_items(items, Seq::empty(), n) == all_rows(n as nat),
    decreases n,
{
    if n > 0 {
        lemma_empty_filter_shows_all(items, n - 1);
    }
    assert(held_items(items, Seq::empty(), n) =~= all_rows(n as nat));
}

proof fn lemma_repository_found(list: Seq<RepositoryRecord>, alias: Seq<char>, at: int)
    requires
        0 <= at <= list.len(),
    ensures
        repository_from(list, alias, at) matches Some(i) ==> at <= i < list.len() && list[i].alias@
            == alias,
        repository_from(list, alias, at) is None ==> forall|i: int|
            at <= i < list.len() ==> (#[trigger] list[i]).alias@ != alias,
    decreases list.len() - at,
{
    if at < list.len() && list[at].alias@ != alias {
        lemma_repository_found(list, alias, at + 1);
    }
}

/// Enter on a source shows its skills: the search is made for the name that it is shown
/// under, in quotes where the name has blanks.
pub proof fn lemma_enter_browses_the_source(
    browser: BrowserView,
    key: KeyEvent,
    snap: Snapshot,
    actions: Seq<Action>,
    i: int,
)
    requires
        key.code == KeyCode::Enter,
        browser.list.selected is Some,
        browser.list.selected->0 < browser.shown.len(),
        browser.keyed(key, snap).1.told(actions),
        0 <= i < snap.repositories@.len(),
        snap.repositories@[i].alias@ == browser.items[browser.shown[browser.list.selected->0 as int] as int].id@,
        forall|k: int|
            0 <= k < snap.repositories@.len() && k != i ==> (#[trigger] snap.repositories@[k]).alias@
                != snap.repositories@[i].alias@,
    ensures
        ({
            let name = snap.repositories@[i].display_name@;
            &&& actions.len() == 2
            &&& actions[0] == Action::CloseModal
            &&& (actions[1] matches Action::Search { query, focus_list } && focus_list && query@
                == if has_white(name) {
                "repo:\""@ + name + "\""@
            } else {
                "repo:"@ + name
            })
        }),
{
    lemma_repository_found(snap.repositories@, snap.repositories@[i].alias@, 0);
}

/// The skills of a source are those whose key lies in it, in their order.
pub proof fn lemma_keys_of_a_source(skills: Seq<SkillRecord>, alias: Seq<char>)
    ensures
        keys_from(skills, alias) == skills.filter(
            |s: SkillRecord| alias_in(s.key@) == Some(alias),
        ).map_values(|s: SkillRecord| s.key@),
    decreases skills.len(),
{
    reveal(Seq::filter);
    let belongs = |s: SkillRecord| alias_in(s.key@) == Some(alias);
    let key = |s: SkillRecord| s.key@;
    if skills.len() > 0 {
        lemma_keys_of_a_source(skills.drop_last(), alias);
        let before = skills.drop_last().filter(belongs);
        if belongs(skills.last()) {
            assert(before.push(skills.last()).map_values(key) =~= before.map_values(key).push(
                key(skills.last()),
            ));
        }
    } else {
        assert(keys_from(skills, alias) =~= skills.filter(belongs).map_values(key));
    }
}

/// 'u' looks for updates of the skills of the selected source, 'U' prepares them, both while
/// the list has the focus; while something is typed they are letters.
pub proof fn lemma_the_letters_update_the_source(
    browser: BrowserView,
    key: KeyEvent,
    snap: Snapshot,
    actions: Seq<Action>,
    i: int,
)
    requires
        key.code == KeyCode::Char('u') || key.code == KeyCode::Char('U'),
        !key.modifiers.control,
        browser.list.selected is Some,
        browser.list.selected->0 < browser.shown.len(),
        browser.keyed(key, snap).1.told(actions),
    ensures
        browser.input_focus ==> actions.len() == 0 && browser.keyed(key, snap).0.input
            == browser.input.keyed(key),
        !browser.input_focus ==> ({
            let alias = browser.items[browser.shown[browser.list.selected->0 as int] as int].id@;
            let keys = snap.skills@.filter(
                |s: SkillRecord| alias_in(s.key@) == Some(alias),
            ).map_values(|s: SkillRecord| s.key@);
            &&& key.code == KeyCode::Char('u') ==> actions.len() == 1 && (
            actions[0] matches Action::Spawn(Task::Check(list)) && texts(list@) == keys)
            &&& key.code == KeyCode::Char('U') ==> actions.len() == keys.len() && (0 <= i
                < actions.len() ==> (actions[i] matches Action::Spawn(Task::Prepare(one)) && one@
                == keys[i]))
        }),
{
    lemma_keys_of_a_source(
        snap.skills@,
        browser.items[browser.shown[browser.list.selected->0 as int] as int].id@,
    );
}

/// The rows that are shown are those that hold what was typed in their label or below it, in
/// their order.
pub proof fn lemma_typing_narrows_the_rows(items: Seq<PickItem>, query: Seq<char>, n: int, i: int)
    requires
        0 <= i < n <= items.len() <= usize::MAX,
    ensures
        held_items(items, query, n).contains(i as usize) <==> query.len() == 0 || has_part(
            lower(items[i].label@),
            query,
        ) || has_part(lower(items[i].sub@), query),
        forall|k: int| 0 <= k < held_items(items, query, n).len() ==> #[trigger] held_items(
            items,
            query,
            n,
        )[k] < n,
    decreases n,
{
    let before = held_items(items, query, n - 1);
    let got = held_items(items, query, n);
    if n > 1 {
        lemma_typing_narrows_the_rows(
            items,
            query,
            n - 1,
            if i < n - 1 {
                i
            } else {
                0
            },
        );
    }
    if i == n - 1 {
        if item_holds(items[i], query) {
            assert(got[before.len() as int] == i as usize);
        } else if got.contains(i as usize) {
            let k = choose|k: int| 0 <= k < got.len() && got[k] == i as usize;
            assert(before[k] < n - 1);
        }
    } else {
        if before.contains(i as usize) {
            let k = choose|k: int| 0 <= k < before.len() && before[k] == i as usize;
            assert(got[k] == i as usize);
        }
        if got.contains(i as usize) {
            let k = choose|k: int| 0 <= k < got.len() && got[k] == i as usize;
            if k < before.len() {
                assert(before[k] == i as usize);
            }
        }
    }
    assert forall|k: int| 0 <= k < got.len() implies #[trigger] got[k] < n by {
        if k < before.len() {
            assert(got[k] == before[k]);
        }
    }
}

/// A source is listed with its mark and name, how many skills came from it, and where it is.
pub proof fn lemma_what_is_said_of_a_source(view: BrowserView, snap: Snapshot, icons: Icons, i: int)
    requires
        lists_repositories(view, snap, icons),
        0 <= i < view.items.len(),
    ensures
        view.title == " sources "@,
        view.items.len() == snap.repositories@.len(),
        ({
            let record = snap.repositories@[i];
            &&& view.items[i].id@ == record.alias@
            &&& view.items[i].label@ == source_mark(icons, record.source) + " "@
                + record.display_name@
            &&& view.items[i].sub@ == package(icons)@ + " "@ + numeral(
                keys_from(snap.skills@, record.alias@).len() as int,
            ) + " skills · "@ + source_text(icons, record.source)
        }),
{
}

/// The hints of the list follow whether something is typed.
pub proof fn lemma_the_hints_of_the_sources(view: BrowserView)
    ensures
        view.input_focus ==> view.hint_list() == seq![
            ("type", "filter"),
            ("↓", "list"),
            ("Enter", "browse"),
            ("Esc", "close"),
        ],
        !view.input_focus ==> view.hint_list() == seq![
            ("Enter", "browse"),
            ("u", "check repo"),
            ("U", "update repo"),
            ("↑↓", "move"),
            ("/", "filter"),
            ("Esc", "close"),
        ],
{
}

/// A press beside the list leaves it, one on the filter goes there, one on a row selects it,
/// and a second one browses that source; the wheel over the rows moves by three.
pub proof fn lemma_mouse_of_the_sources(
    browser: BrowserView,
    event: MouseEvent,
    snap: Snapshot,
    at: usize,
)
    ensures
        ({
            let x = event.column as int;
            let y = event.row as int;
            let after = browser.moused(event, snap);
            let n = browser.shown.len() as int;
            let over = browser.list.rows.has(x, y);
            &&& event.kind == MouseKind::Down && !browser.rect.has(x, y) ==> after == (
                browser,
                BrowserReply::Close,
            )
            &&& event.kind == MouseKind::Down && browser.rect.has(x, y) && browser.input_rect.has(
                x,
                y,
            ) ==> {
                &&& after.0.input_focus
                &&& after.0.input == browser.input.clicked(x)
                &&& after.1 is Nothing
            }
            &&& event.kind == MouseKind::Down && browser.rect.has(x, y)
                && !browser.input_rect.has(x, y) && browser.list.hit(y, n) == Some(at) ==> {
                &&& after.0.list.selected == Some(at)
                &&& !after.0.input_focus
                &&& !event.repeated ==> after.1 is Nothing
                &&& event.repeated ==> after.1 is Browse
            }
            &&& event.kind == MouseKind::ScrollDown && over ==> after.1 is Nothing
                && after.0.list.selected == moved(browser.list.selected, 3, n)
            &&& event.kind == MouseKind::ScrollUp && over ==> after.1 is Nothing
                && after.0.list.selected == moved(browser.list.selected, -3, n)
        }),
{
}

/// A paste goes into the filter where that has the keys.
pub proof fn lemma_a_paste_goes_into_the_search(browser: BrowserView, text: Seq<char>)
    ensures
        !browser.input_focus ==> browser.pasted(text) == (browser, BrowserReply::Nothing),
        browser.input_focus && is_multiline(text) ==> browser.pasted(text) == (
            browser,
            BrowserReply::Complain("Paste a single line"@),
        ),
        browser.input_focus && !is_multiline(text) ==> browser.pasted(text).0.input
            == browser.input.with_pasted(text) && browser.pasted(text).1 is Nothing,
{
}

/// The filter and the rows can be pressed where they are drawn; drawing keeps them.
pub proof fn lemma_the_sources_are_pressed_where_they_are_drawn(
    browser: BrowserView,
    area: Rect,
    theme: Theme,
)
    ensures
        ({
            let after = browser.placed(area);
            let scene = browser.scene(area, theme);
            &&& scene[1] == framed(after.rect, browser.title)
            &&& scene[2] is Field
            &&& scene[2]->Field_rect == after.input_rect
            &&& scene[2]->Field_value == browser.input.text
            &&& scene[2]->Field_focused == browser.input_focus
            &&& scene[3] is List
            &&& scene[3]->List_rect == after.list.rows
            &&& scene[3]->List_rows.len() == browser.shown.len()
            &&& browser.shown.len() == 0 ==> scene.len() == 5 && scene[4]->Text_lines[0][0].content
                == "nothing matches"@
            &&& browser.shown.len() > 0 ==> scene.len() == 4
            &&& after.items == browser.items
            &&& after.shown == browser.shown
            &&& after.input.text == browser.input.text
        }),
{
}

/// What is typed into the filter narrows the rows at once.
pub proof fn lemma_the_rows_follow_what_is_typed(
    browser: BrowserView,
    key: KeyEvent,
    snap: Snapshot,
    c: char,
)
    requires
        browser.input_focus,
        key.code == KeyCode::Char(c),
        !key.modifiers.control,
        !key.modifiers.alt,
        !key.modifiers.super_key,
        !browser.operates(key.code),
    ensures
        browser.keyed(key, snap).0 == (BrowserView {
            input: browser.input.keyed(key),
            ..browser
        }).refiltered(),
        browser.keyed(key, snap).1 is Nothing,
{
}

/// The list of the sources is 76 columns wide and as high as its rows, within the screen;
/// its rows lie below the filter.
pub proof fn lemma_where_the_sources_are_drawn(browser: BrowserView, area: Rect)
    requires
        area.in_range(),
        area.width >= 78,
        area.height >= 14,
        browser.shown.len() + 5 <= area.height - 4,
    ensures
        ({
            let rect = browser.rect_in(area);
            let inner = rect.inside();
            &&& rect.width == 76
            &&& browser.shown.len() >= 3 ==> rect.height == browser.shown.len() + 5
            &&& browser.shown.len() < 3 ==> rect.height == 8
            &&& BrowserView::field_in(inner).y == inner.y
            &&& BrowserView::list_in(inner).y == inner.y + 2
            &&& BrowserView::list_in(inner).height == inner.height - 2
        }),
{
}

} // verus!
