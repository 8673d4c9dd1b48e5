//! Pages and journals: where they are, how one is opened, and what follows
//! from having read or written it.

use crate::dates::{
    date_text, day_named, format_date, is_day, parse_date, ISO_PATTERN, LONG_PATTERN,
};
use crate::outline::{index_for_path, index_of};
use crate::paths::{
    file_stem, join_path, joined_path, law_parent_of_joined, law_stem_of_joined, parent_dir_name,
    parent_name, stem_of,
};
use crate::state::{App, Mode, Screen};
use crate::text::{cat, cat3, opt_text, same_text};
use vstd::prelude::*;

verus! {

// ---------------------------------------------------------------------
// Where a page is
// ---------------------------------------------------------------------

/// What a screen shows, as a value.
pub ghost enum ScreenValue {
    Journal(int),
    Page(Seq<char>),
}

impl View for Screen {
    type V = ScreenValue;

    open spec fn view(&self) -> ScreenValue {
        match self {
            Screen::Journal(d) => ScreenValue::Journal(*d as int),
            Screen::Page(p) => ScreenValue::Page(p@),
        }
    }
}

/// The file of a screen, in a workspace. A day that cannot be shown has none.
pub open spec fn path_of(screen: ScreenValue, root: Seq<char>) -> Option<Seq<char>> {
    match screen {
        ScreenValue::Journal(d) => match date_text(d, ISO_PATTERN@) {
            Some(t) => Some(joined_path(joined_path(root, "journals"@), t + ".md"@)),
            None => None,
        },
        ScreenValue::Page(p) => Some(p),
    }
}

/// The name of a screen's page: that of its file, without the extension.
pub open spec fn slug_of(screen: ScreenValue, root: Seq<char>) -> Seq<char> {
    match path_of(screen, root) {
        Some(p) => match stem_of(p) {
            Some(s) => s,
            None => Seq::empty(),
        },
        None => Seq::empty(),
    }
}

/// What the index knows of a page.
#[derive(Debug)]
pub struct PageEntry {
    pub title: String,
    pub icon: Option<String>,
}

/// The tag of a mode.
pub open spec fn mode_tag(mode: Mode) -> &'static str {
    match mode {
        Mode::Normal => "NORMAL",
        Mode::Insert { .. } => "INSERT",
        Mode::Visual { .. } => "VISUAL",
    }
}

/// The title of the window. A page is called by its title, with its icon, or
/// by its file where the index does not know it yet.
pub open spec fn title_of(app: App, entry: Option<PageEntry>) -> Seq<char> {
    let tag = " · ["@ + mode_tag(app.mode)@ + "]"@;
    match app.screen {
        Screen::Journal(d) => "Journal · "@ + (match date_text(d as int, LONG_PATTERN@) {
            Some(t) => t,
            None => Seq::empty(),
        }) + tag,
        Screen::Page(p) => "Page · "@ + (match entry {
            Some(e) => (match e.icon {
                Some(i) => i@ + " "@,
                None => Seq::empty(),
            }) + e.title@,
            None => match stem_of(p@) {
                Some(s) => s,
                None => "?"@,
            },
        }) + tag,
    }
}

impl App {
    /// The file of what is shown.
    pub fn current_path(&self, root: &str) -> (r: Option<String>)
        ensures
            opt_text(r) == path_of(self.screen@, root@),
    {
        match &self.screen {
            Screen::Journal(d) => match format_date(*d, ISO_PATTERN) {
                Some(t) => {
                    let dir = join_path(root, "journals");
                    let name = cat(t.as_str(), ".md");
                    Some(join_path(dir.as_str(), name.as_str()))
                },
                None => None,
            },
            Screen::Page(p) => Some(p.clone()),
        }
    }

    /// The name of the page that is shown.
    pub fn current_slug(&self, root: &str) -> (r: String)
        ensures
            r@ == slug_of(self.screen@, root@),
    {
        match self.current_path(root) {
            Some(p) => match file_stem(p.as_str()) {
                Some(s) => s,
                None => String::new(),
            },
            None => String::new(),
        }
    }

    /// The title of the window.
    pub fn current_title(&self, entry: &Option<PageEntry>) -> (r: String)
        ensures
            r@ == title_of(*self, *entry),
    {
        let mode = match &self.mode {
            Mode::Normal => "NORMAL",
            Mode::Insert { .. } => "INSERT",
            Mode::Visual { .. } => "VISUAL",
        };
        let tag = cat3(" · [", mode, "]");
        match &self.screen {
            Screen::Journal(d) => {
                let t = match format_date(*d, LONG_PATTERN) {
                    Some(t) => t,
                    None => String::new(),
                };
                cat3("Journal · ", t.as_str(), tag.as_str())
            },
            Screen::Page(p) => {
                let name = match entry {
                    Some(e) => {
                        let icon = match &e.icon {
                            Some(i) => cat(i.as_str(), " "),
                            None => String::new(),
                        };
                        cat(icon.as_str(), e.title.as_str())
                    },
                    None => match file_stem(p.as_str()) {
                        Some(s) => s,
                        None => "?".to_owned(),
                    },
                };
                cat3("Page · ", name.as_str(), tag.as_str())
            },
        }
    }
}

// ---------------------------------------------------------------------
// Opening
// ---------------------------------------------------------------------

/// `new` is `old` with another screen, the cursor at its top.
pub open spec fn screen_opened(old: App, new: App, screen: ScreenValue) -> bool {
    &&& new == App { screen: new.screen, selected: 0, cursor_col: 0, ..old }
    &&& new.screen@ == screen
}

/// What the cursor is on.
#[derive(Debug)]
pub enum RefTarget {
    Journal(i32),
    Page(String),
    Tag(String),
    Block(String),
}

/// What has to be done to open what the cursor is on.
#[derive(Debug)]
pub enum OpenStep {
    /// There is nothing to open.
    Nothing,
    /// The screen is set; its page is to be read.
    Load,
    /// The page of a name is to be opened, or made.
    ByName(String),
    /// The page of a block is to be opened.
    Block(String),
}

/// Where a block is: its page's file, and its path on that page.
#[derive(Debug)]
pub struct BlockPlace {
    pub source_path: String,
    pub block_path: Vec<usize>,
}

/// The screen of a file: a file in `journals` that is named for a day is that
/// day's journal, any other file is a page.
pub open spec fn screen_of_file(p: Seq<char>) -> ScreenValue {
    if parent_name(p) == "journals"@ {
        match stem_of(p) {
            Some(s) => match day_named(s) {
                Some(d) => ScreenValue::Journal(d),
                None => ScreenValue::Page(p),
            },
            None => ScreenValue::Page(p),
        }
    } else {
        ScreenValue::Page(p)
    }
}

fn screen_for(p: &str) -> (s: Screen)
    ensures
        s@ == screen_of_file(p@),
{
    let dir = parent_dir_name(p);
    if same_text(dir.as_str(), "journals") {
        if let Some(stem) = file_stem(p) {
            if let Some(d) = parse_date(stem.as_str()) {
                return Screen::Journal(d);
            }
        }
    }
    Screen::Page(p.to_owned())
}

/// What a new page holds: its title, and a block for the cursor.
pub open spec fn page_seed(name: Seq<char>) -> Seq<char> {
    "title:: "@ + name + "\n\n- \n"@
}

/// What a new journal holds: a block for the cursor.
pub const JOURNAL_SEED: &'static str = "- \n";

impl App {
    fn show(&mut self, screen: Screen)
        ensures
            screen_opened(*old(self), *final(self), screen@),
    {
        self.screen = screen;
        self.selected = 0;
        self.cursor_col = 0;
    }

    /// Shows today's journal.
    pub fn go_today(&mut self, today: i32)
        ensures
            screen_opened(*old(self), *final(self), ScreenValue::Journal(today as int)),
    {
        self.show(Screen::Journal(today));
    }

    /// Shows the journal some days from the one shown, or from today's where
    /// a page is shown.
    pub fn shift_journal(&mut self, days: i32, today: i32)
        requires
            is_day(
                days + match old(self).screen@ {
                    ScreenValue::Journal(d) => d,
                    ScreenValue::Page(_) => today as int,
                },
            ),
            i32::MIN <= days + match old(self).screen@ {
                ScreenValue::Journal(d) => d,
                ScreenValue::Page(_) => today as int,
            } <= i32::MAX,
        ensures
            screen_opened(
                *old(self),
                *final(self),
                ScreenValue::Journal(
                    days + match old(self).screen@ {
                        ScreenValue::Journal(d) => d,
                        ScreenValue::Page(_) => today as int,
                    },
                ),
            ),
    {
        let from: i32 = match &self.screen {
            Screen::Journal(d) => *d,
            Screen::Page(_) => today,
        };
        self.show(Screen::Journal(from + days));
    }

    /// Opens what the cursor is on.
    pub fn try_open_under_cursor(&mut self, target: Option<RefTarget>) -> (r: OpenStep)
        ensures
            match target {
                None => *final(self) == *old(self) && r is Nothing,
                Some(RefTarget::Journal(d)) => {
                    &&& screen_opened(
                        *old(self),
                        *final(self),
                        ScreenValue::Journal(d as int),
                    )
                    &&& r is Load
                },
                Some(RefTarget::Page(name)) => *final(self) == *old(self) && r
                    == OpenStep::ByName(name),
                Some(RefTarget::Tag(name)) => *final(self) == *old(self) && r
                    == OpenStep::ByName(name),
                Some(RefTarget::Block(handle)) => *final(self) == *old(self) && r
                    == OpenStep::Block(handle),
            },
    {
        match target {
            None => OpenStep::Nothing,
            Some(RefTarget::Journal(d)) => {
                self.show(Screen::Journal(d));
                OpenStep::Load
            },
            Some(RefTarget::Page(name)) => OpenStep::ByName(name),
            Some(RefTarget::Tag(name)) => OpenStep::ByName(name),
            Some(RefTarget::Block(handle)) => OpenStep::Block(handle),
        }
    }

    /// Shows the page that a block is on, if the block is known: it is then to
    /// be read, and the block to be selected.
    pub fn open_block_ref(&mut self, handle: &str, place: &Option<BlockPlace>) -> (load: bool)
        ensures
            load == (place is Some),
            match *place {
                Some(p) => screen_opened(
                    *old(self),
                    *final(self),
                    screen_of_file(p.source_path@),
                ),
                None => {
                    &&& *final(self) == (App { status: final(self).status, ..*old(self) })
                    &&& final(self).status@ == "ref (("@ + handle@ + ")) does not resolve"@
                },
            },
    {
        match place {
            Some(p) => {
                self.show(screen_for(p.source_path.as_str()));
                true
            },
            None => {
                self.status = cat3("ref ((", handle, ")) does not resolve");
                false
            },
        }
    }

    /// Selects the block at a path, or the first block where there is none.
    pub fn select_path(&mut self, path: &Vec<usize>)
        requires
            old(self).wf(),
        ensures
            *final(self) == (App { selected: final(self).selected, ..*old(self) }),
            final(self).selected == match index_of(old(self).blocks(), path@) {
                Some(i) => i,
                None => 0,
            },
            final(self).wf(),
    {
        self.selected =
        match index_for_path(&self.page.blocks, path) {
            Some(i) => i,
            None => 0,
        };
    }

    /// Shows the page of a slug. Where its file is not there yet, what it is
    /// to hold is returned, to be written first.
    pub fn open_page_slug(&mut self, root: &str, slug: &str, name: &str, on_disk: bool) -> (seed:
        Option<String>)
        ensures
            screen_opened(
                *old(self),
                *final(self),
                ScreenValue::Page(joined_path(joined_path(root@, "pages"@), slug@ + ".md"@)),
            ),
            opt_text(seed) == if on_disk {
                None
            } else {
                Some(page_seed(name@))
            },
    {
        let dir = join_path(root, "pages");
        let file = cat(slug, ".md");
        self.show(Screen::Page(join_path(dir.as_str(), file.as_str())));
        if on_disk {
            None
        } else {
            Some(cat3("title:: ", name, "\n\n- \n"))
        }
    }

    /// Shows the page of a slug as it stands on disk.
    pub fn open_page_by_slug(&mut self, root: &str, slug: &str, on_disk: bool) -> (seed: Option<
        String,
    >)
        ensures
            screen_opened(
                *old(self),
                *final(self),
                ScreenValue::Page(joined_path(joined_path(root@, "pages"@), slug@ + ".md"@)),
            ),
            opt_text(seed) == if on_disk {
                None
            } else {
                Some(page_seed(slug@))
            },
    {
        self.open_page_slug(root, slug, slug, on_disk)
    }

    /// Says that a page was made.
    pub fn page_created(&mut self, name: &str)
        ensures
            *final(self) == (App { status: final(self).status, ..*old(self) }),
            final(self).status@ == "created page \""@ + name@ + "\""@,
    {
        self.status = cat3("created page \"", name, "\"");
    }

    /// Turns the order of the backlinks round.
    pub fn toggle_backlinks_order(&mut self)
        ensures
            *final(self) == (App {
                backlinks_newest_first: !old(self).backlinks_newest_first,
                ..*old(self)
            }),
    {
        self.backlinks_newest_first = !self.backlinks_newest_first;
    }

    /// Says which order the backlinks have, and why it was not saved if so.
    pub fn backlinks_order_saved(&mut self, failure: Option<&str>)
        ensures
            *final(self) == (App { status: final(self).status, ..*old(self) }),
            final(self).status@ == "backlinks: "@ + (if old(self).backlinks_newest_first {
                "newest first"@
            } else {
                "oldest first"@
            }) + (match failure {
                Some(e) => " (not saved: "@ + e@ + ")"@,
                None => Seq::empty(),
            }),
    {
        let label = if self.backlinks_newest_first {
            "newest first"
        } else {
            "oldest first"
        };
        let tail = match failure {
            Some(e) => cat3(" (not saved: ", e, ")"),
            None => String::new(),
        };
        self.status = cat3("backlinks: ", label, tail.as_str());
    }
}

// ---------------------------------------------------------------------
// Laws
// ---------------------------------------------------------------------

/// The file of a journal is opened as that journal, and its slug is the day
/// as it is written, wherever the text of the day names the day.
pub proof fn law_journal_file_is_its_journal(day: int, text: Seq<char>, root: Seq<char>)
    requires
        date_text(day, ISO_PATTERN@) == Some(text),
        day_named(text) == Some(day),
        text.len() > 0,
        forall|j: int| 0 <= j < text.len() ==> text[j] != '/' && text[j] != '.',
    ensures
        path_of(ScreenValue::Journal(day), root) is Some,
        screen_of_file(path_of(ScreenValue::Journal(day), root)->0) == ScreenValue::Journal(day),
        slug_of(ScreenValue::Journal(day), root) == text,
{
    reveal_strlit(".md");
    reveal_strlit("journals");
    let name = text + ".md"@;
    assert forall|j: int| 0 <= j < name.len() implies name[j] != '/' by {
        if j >= text.len() {
            assert(name[j] == ".md"@[j - text.len()]);
        }
    }
    law_parent_of_joined(root, "journals"@, name);
    law_stem_of_joined(joined_path(root, "journals"@), text);
}

/// A page is found again by its file.
pub proof fn law_a_page_is_its_file(p: Seq<char>, root: Seq<char>)
    ensures
        path_of(ScreenValue::Page(p), root) == Some(p),
        parent_name(p) != "journals"@ ==> screen_of_file(p) == ScreenValue::Page(p),
        stem_of(p) is Some && day_named(stem_of(p)->0) is None ==> screen_of_file(p)
            == ScreenValue::Page(p),
        match screen_of_file(p) {
            ScreenValue::Page(q) => q == p,
            ScreenValue::Journal(d) => parent_name(p) == "journals"@ && stem_of(p) is Some
                && day_named(stem_of(p)->0) == Some(d),
        },
{
}

/// The title begins with what is shown and ends with the mode.
pub proof fn law_the_title_ends_in_the_mode(app: App, entry: Option<PageEntry>)
    ensures
        app.mode is Normal ==> title_of(app, entry).skip(title_of(app, entry).len() - 8)
            == "[NORMAL]"@,
        app.mode is Insert ==> title_of(app, entry).skip(title_of(app, entry).len() - 8)
            == "[INSERT]"@,
        app.mode is Visual ==> title_of(app, entry).skip(title_of(app, entry).len() - 8)
            == "[VISUAL]"@,
        app.screen is Journal ==> title_of(app, entry).take(10) == "Journal · "@,
        app.screen is Page ==> title_of(app, entry).take(7) == "Page · "@,
{
    reveal_strlit("[NORMAL]");
    reveal_strlit("[INSERT]");
    reveal_strlit("[VISUAL]");
    reveal_strlit("NORMAL");
    reveal_strlit("INSERT");
    reveal_strlit("VISUAL");
    reveal_strlit(" · [");
    reveal_strlit("]");
    reveal_strlit("Journal · ");
    reveal_strlit("Page · ");
    let t = title_of(app, entry);
    let n = t.len() as int;
    match app.mode {
        Mode::Normal => {
            assert(t.skip(n - 8) =~= "[NORMAL]"@);
        },
        Mode::Insert { .. } => {
            assert(t.skip(n - 8) =~= "[INSERT]"@);
        },
        Mode::Visual { .. } => {
            assert(t.skip(n - 8) =~= "[VISUAL]"@);
        },
    }
    if app.screen is Journal {
        assert(t.take(10) =~= "Journal · "@);
    } else {
        assert(t.take(7) =~= "Page · "@);
    }
}

} // verus!
