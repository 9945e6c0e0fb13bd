//! The session controller: a modal state machine over the directory model,
//! the search subsystem, preview scrolling and jump navigation. Every
//! transition is a pure step from the current state and one event; reading
//! directories, spawning search work, and polling its channel are the
//! caller's business and arrive here as plain values.

use vstd::prelude::*;

use crate::browser::{clamp_index, index_of_name, is_listing_of, FileBrowser, FileEntry};
use crate::config::Config;
use crate::editor::Editor;
use crate::jump::{jump, jump_spec};
use crate::preview::PreviewContent;
use crate::query::{join_spaced, parse, parse_tokens, tokens_of};
use crate::search::SearchResult;
use crate::text::{parent_of, str_parent, str_tail_after_last, tail_after_last};

verus! {

/// The mutually exclusive session modes; `Normal` is initial.
#[derive(Debug, Clone, Copy, PartialEq, Eq, Structural)]
pub enum InputMode {
    Normal,
    SearchInput,
    Searching,
    SearchResult,
    Preview,
    JumpInput,
    Help,
}

/// A transient status note, cleared on the next input event; the renderer
/// turns it into text.
#[derive(Debug)]
pub enum StatusMessage {
    Reloaded,
    NoResults,
    SearchFailed,
    NoMatch(char),
    Copied(String),
    CopyFailed(String),
    EditorError(String),
}

/// What an accepted search submission asks the coordinator to run.
#[derive(Debug)]
pub struct SearchRequest {
    pub query: String,
    pub base_dir: String,
    pub dirs_only: bool,
    pub exact: bool,
    pub max_results: usize,
}

/// One poll of the in-flight search: still working, finished with results,
/// or the worker is gone.
#[derive(Debug)]
pub enum SearchPoll {
    Pending,
    Ready(Vec<SearchResult>),
    Failed,
}

pub struct App {
    pub browser: FileBrowser,
    pub editor: Editor,
    pub config: Config,
    pub preview_content: Option<PreviewContent>,
    pub preview_scroll: usize,
    pub preview_height: usize,
    pub input_mode: InputMode,
    pub search_input: String,
    pub status_message: Option<StatusMessage>,
    pub should_quit: bool,
    pub search_results: Vec<SearchResult>,
    pub search_selected: usize,
    pub base_dir: String,
    pub search_dirs_only: bool,
    pub search_pending: bool,
    pub spinner_frame: usize,
    pub last_jump_char: Option<char>,
}

impl App {
    /// Total preview lines currently held.
    pub open spec fn preview_total(self) -> int {
        match self.preview_content {
            Some(c) => c.lines@.len() as int,
            None => 0,
        }
    }

    /// The largest legal scroll offset: `max(0, total - viewport)`.
    pub open spec fn preview_max_scroll(self) -> int {
        if self.preview_total() > self.preview_height as int {
            self.preview_total() - self.preview_height as int
        } else {
            0
        }
    }

    /// The session invariant: the browser is well formed, both selections
    /// stay in range, the preview scroll offset stays within its bound, and
    /// the spinner cycles through its ten frames.
    pub open spec fn wf(self) -> bool {
        &&& self.browser.wf()
        &&& (self.search_results@.len() == 0 ==> self.search_selected == 0)
        &&& (self.search_results@.len() > 0 ==> (self.search_selected as int)
            < self.search_results@.len())
        &&& self.preview_scroll as int <= self.preview_max_scroll()
        &&& self.spinner_frame < 10
    }

    /// Opens a session on `start_dir`, whose raw entries the caller has
    /// read, in `Normal` mode with everything else at rest.
    pub fn new(start_dir: String, raw: Vec<FileEntry>, config: Config) -> (r: App)
        ensures
            r.wf(),
            r.browser.current_dir@ == start_dir@,
            r.browser.show_hidden == config.show_hidden,
            is_listing_of(r.browser.entries@, raw@, config.show_hidden),
            r.browser.selected_index == 0,
            r.base_dir@ == start_dir@,
            r.editor.command@ == config.editor@,
            r.editor.args@ == config.editor_args@,
            r.config == config,
            r.input_mode is Normal,
            r.search_input@.len() == 0,
            r.status_message is None,
            !r.should_quit,
            r.search_results@.len() == 0,
            r.search_selected == 0,
            !r.search_dirs_only,
            !r.search_pending,
            r.spinner_frame == 0,
            r.last_jump_char is None,
            r.preview_content is None,
            r.preview_scroll == 0,
            r.preview_height == 20,
    {
        let editor = Editor::new(&config);
        let base_dir = start_dir.clone();
        let browser = FileBrowser::new(start_dir, raw, config.show_hidden);
        App {
            browser,
            editor,
            config,
            preview_content: None,
            preview_scroll: 0,
            preview_height: 20,
            input_mode: InputMode::Normal,
            search_input: String::new(),
            status_message: None,
            should_quit: false,
            search_results: Vec::new(),
            search_selected: 0,
            base_dir,
            search_dirs_only: false,
            search_pending: false,
            spinner_frame: 0,
            last_jump_char: None,
        }
    }

    /// The selected entry's path when it is a file: what a preview or an
    /// editor launch would open.
    pub fn selected_file_path(&self) -> (r: Option<String>)
        requires
            self.wf(),
        ensures
            match r {
                Some(p) => {
                    &&& self.browser.entries@.len() > 0
                    &&& !self.browser.entries@[self.browser.selected_index as int].is_dir
                    &&& p@ == self.browser.entries@[self.browser.selected_index as int].path@
                },
                None => self.browser.entries@.len() == 0 || self.browser.entries@[self.browser.selected_index as int].is_dir,
            },
    {
        if self.browser.entries.len() == 0 {
            return None;
        }
        let e = &self.browser.entries[self.browser.selected_index];
        if e.is_dir {
            None
        } else {
            Some(e.path.clone())
        }
    }

    /// The selected entry's path, whatever it is.
    pub fn selected_path(&self) -> (r: Option<String>)
        requires
            self.wf(),
        ensures
            match r {
                Some(p) => self.browser.entries@.len() > 0 && p@ == self.browser.entries@[self.browser.selected_index as int].path@,
                None => self.browser.entries@.len() == 0,
            },
    {
        if self.browser.entries.len() == 0 {
            return None;
        }
        Some(self.browser.entries[self.browser.selected_index].path.clone())
    }

    /// Installs a freshly rendered preview (or none, for a directory) and
    /// rewinds the scroll.
    pub fn update_preview(&mut self, content: Option<PreviewContent>)
        requires
            old(self).wf(),
        ensures
            final(self).wf(),
            *final(self) == (App {
                preview_content: final(self).preview_content,
                preview_scroll: 0,
                ..*old(self)
            }),
            final(self).preview_content == content,
    {
        self.preview_scroll = 0;
        self.preview_content = content;
    }

    /// Forgets the remembered jump character.
    fn clear_jump(&mut self)
        ensures
            *final(self) == (App { last_jump_char: None, ..*old(self) }),
    {
        self.last_jump_char = None;
    }

    /// Moves the selection up with wraparound and forgets the jump memory.
    pub fn move_up(&mut self)
        requires
            old(self).wf(),
        ensures
            final(self).wf(),
            *final(self) == (App {
                browser: final(self).browser,
                last_jump_char: None,
                ..*old(self)
            }),
            final(self).browser == (FileBrowser {
                selected_index: final(self).browser.selected_index,
                ..old(self).browser
            }),
            old(self).browser.entries@.len() == 0 ==> final(self).browser.selected_index == old(
                self,
            ).browser.selected_index,
            old(self).browser.entries@.len() > 0 ==> final(self).browser.selected_index as int == (
            if old(self).browser.selected_index > 0 {
                old(self).browser.selected_index - 1
            } else {
                old(self).browser.entries@.len() - 1
            }),
    {
        self.clear_jump();
        self.browser.move_up();
    }

    /// Moves the selection down with wraparound and forgets the jump memory.
    pub fn move_down(&mut self)
        requires
            old(self).wf(),
        ensures
            final(self).wf(),
            *final(self) == (App {
                browser: final(self).browser,
                last_jump_char: None,
                ..*old(self)
            }),
            final(self).browser == (FileBrowser {
                selected_index: final(self).browser.selected_index,
                ..old(self).browser
            }),
            old(self).browser.entries@.len() == 0 ==> final(self).browser.selected_index == old(
                self,
            ).browser.selected_index,
            old(self).browser.entries@.len() > 0 ==> final(self).browser.selected_index as int == (
            if (old(self).browser.selected_index as int) < old(self).browser.entries@.len() - 1 {
                old(self).browser.selected_index + 1
            } else {
                0int
            }),
    {
        self.clear_jump();
        self.browser.move_down();
    }

    /// Selects the first entry and forgets the jump memory.
    pub fn go_to_top(&mut self)
        requires
            old(self).wf(),
        ensures
            final(self).wf(),
            *final(self) == (App {
                browser: final(self).browser,
                last_jump_char: None,
                ..*old(self)
            }),
            final(self).browser == (FileBrowser { selected_index: 0, ..old(self).browser }),
    {
        self.clear_jump();
        self.browser.go_to_top();
    }

    /// Selects the last entry and forgets the jump memory.
    pub fn go_to_bottom(&mut self)
        requires
            old(self).wf(),
        ensures
            final(self).wf(),
            *final(self) == (App {
                browser: final(self).browser,
                last_jump_char: None,
                ..*old(self)
            }),
            final(self).browser == (FileBrowser {
                selected_index: final(self).browser.selected_index,
                ..old(self).browser
            }),
            final(self).browser.selected_index as int == (if old(self).browser.entries@.len() == 0 {
                0int
            } else {
                old(self).browser.entries@.len() - 1
            }),
    {
        self.clear_jump();
        self.browser.go_to_bottom();
    }

    /// Acts on the selection: a directory is entered (the caller passes its
    /// freshly read raw entries), a file switches the session to `Preview`.
    pub fn enter(&mut self, raw_for_dir: Option<Vec<FileEntry>>)
        requires
            old(self).wf(),
            raw_for_dir is Some <==> (old(self).browser.entries@.len() > 0 && old(
                self,
            ).browser.entries@[old(self).browser.selected_index as int].is_dir),
        ensures
            final(self).wf(),
            final(self).last_jump_char is None,
            old(self).browser.entries@.len() == 0 ==> *final(self) == (App {
                last_jump_char: None,
                ..*old(self)
            }),
            (old(self).browser.entries@.len() > 0 && !old(self).browser.entries@[old(
                self,
            ).browser.selected_index as int].is_dir) ==> *final(self) == (App {
                last_jump_char: None,
                input_mode: InputMode::Preview,
                ..*old(self)
            }),
            (old(self).browser.entries@.len() > 0 && old(self).browser.entries@[old(
                self,
            ).browser.selected_index as int].is_dir) ==> {
                &&& *final(self) == (App {
                    last_jump_char: None,
                    browser: final(self).browser,
                    ..*old(self)
                })
                &&& final(self).browser.current_dir@ == old(self).browser.entries@[old(
                    self,
                ).browser.selected_index as int].path@
                &&& final(self).browser.show_hidden == old(self).browser.show_hidden
                &&& is_listing_of(
                    final(self).browser.entries@,
                    raw_for_dir->Some_0@,
                    old(self).browser.show_hidden,
                )
                &&& final(self).browser.selected_index == 0
            },
    {
        self.clear_jump();
        if self.browser.entries.len() == 0 {
            return ;
        }
        let is_dir = self.browser.entries[self.browser.selected_index].is_dir;
        if is_dir {
            match raw_for_dir {
                Some(raw) => {
                    self.browser.enter_directory(raw);
                },
                None => {},
            }
        } else {
            self.input_mode = InputMode::Preview;
        }
    }

    /// Leaves `Preview` for `Normal`.
    pub fn exit_preview(&mut self)
        requires
            old(self).wf(),
        ensures
            final(self).wf(),
            *final(self) == (App { input_mode: InputMode::Normal, ..*old(self) }),
    {
        self.input_mode = InputMode::Normal;
    }

    /// The directory a parent step would re-list, if there is one.
    pub fn parent_dir(&self) -> (r: Option<String>)
        ensures
            match r {
                Some(p) => parent_of(self.browser.current_dir@) == Some(p@),
                None => parent_of(self.browser.current_dir@) is None,
            },
    {
        self.browser.parent_dir()
    }

    /// Steps to the parent directory, whose raw entries the caller has read,
    /// re-selecting the directory just left where possible; a no-op (but for
    /// the jump memory) at the filesystem root.
    pub fn go_parent(&mut self, raw: Vec<FileEntry>) -> (moved: bool)
        requires
            old(self).wf(),
        ensures
            final(self).wf(),
            moved == (parent_of(old(self).browser.current_dir@) is Some),
            *final(self) == (App {
                last_jump_char: None,
                browser: final(self).browser,
                ..*old(self)
            }),
            !moved ==> final(self).browser == old(self).browser,
            moved ==> {
                &&& Some(final(self).browser.current_dir@) == parent_of(
                    old(self).browser.current_dir@,
                )
                &&& final(self).browser.show_hidden == old(self).browser.show_hidden
                &&& is_listing_of(
                    final(self).browser.entries@,
                    raw@,
                    old(self).browser.show_hidden,
                )
                &&& {
                    let old_name = tail_after_last(old(self).browser.current_dir@, '/');
                    let idx = index_of_name(final(self).browser.entries@, old_name);
                    final(self).browser.selected_index as int == (if idx >= 0 {
                        idx
                    } else {
                        0int
                    })
                }
            },
    {
        self.clear_jump();
        self.browser.go_parent(raw)
    }

    /// Flips hidden-file visibility and installs the re-read listing.
    pub fn toggle_hidden(&mut self, raw: Vec<FileEntry>)
        requires
            old(self).wf(),
        ensures
            final(self).wf(),
            *final(self) == (App {
                last_jump_char: None,
                browser: final(self).browser,
                ..*old(self)
            }),
            final(self).browser.current_dir@ == old(self).browser.current_dir@,
            final(self).browser.show_hidden == !old(self).browser.show_hidden,
            is_listing_of(final(self).browser.entries@, raw@, !old(self).browser.show_hidden),
            final(self).browser.selected_index as int == clamp_index(
                old(self).browser.selected_index as int,
                final(self).browser.entries@.len() as int,
            ),
    {
        self.clear_jump();
        self.browser.toggle_hidden(raw);
    }

    /// Re-lists the current directory from freshly read entries and notes
    /// that it happened.
    pub fn reload(&mut self, raw: Vec<FileEntry>)
        requires
            old(self).wf(),
        ensures
            final(self).wf(),
            *final(self) == (App {
                last_jump_char: None,
                browser: final(self).browser,
                status_message: Some(StatusMessage::Reloaded),
                ..*old(self)
            }),
            final(self).browser.current_dir@ == old(self).browser.current_dir@,
            final(self).browser.show_hidden == old(self).browser.show_hidden,
            is_listing_of(final(self).browser.entries@, raw@, old(self).browser.show_hidden),
            final(self).browser.selected_index as int == clamp_index(
                old(self).browser.selected_index as int,
                final(self).browser.entries@.len() as int,
            ),
    {
        self.clear_jump();
        self.browser.refresh(raw);
        self.status_message = Some(StatusMessage::Reloaded);
    }

    /// Begins search input: clears prior text and results and forgets the
    /// jump memory.
    pub fn start_search(&mut self)
        requires
            old(self).wf(),
        ensures
            final(self).wf(),
            *final(self) == (App {
                last_jump_char: None,
                input_mode: InputMode::SearchInput,
                search_input: final(self).search_input,
                search_results: final(self).search_results,
                search_selected: 0,
                search_dirs_only: false,
                ..*old(self)
            }),
            final(self).search_input@.len() == 0,
            final(self).search_results@.len() == 0,
    {
        self.clear_jump();
        self.input_mode = InputMode::SearchInput;
        self.search_input = String::new();
        self.search_results = Vec::new();
        self.search_selected = 0;
        self.search_dirs_only = false;
    }

    /// Abandons the search: back to `Normal` with the mode-owned search data
    /// cleared and any in-flight work forgotten.
    pub fn cancel_search(&mut self)
        requires
            old(self).wf(),
        ensures
            final(self).wf(),
            *final(self) == (App {
                input_mode: InputMode::Normal,
                search_input: final(self).search_input,
                search_results: final(self).search_results,
                search_selected: 0,
                search_dirs_only: false,
                search_pending: false,
                ..*old(self)
            }),
            final(self).search_input@.len() == 0,
            final(self).search_results@.len() == 0,
    {
        self.input_mode = InputMode::Normal;
        self.search_input = String::new();
        self.search_results = Vec::new();
        self.search_selected = 0;
        self.search_dirs_only = false;
        self.search_pending = false;
    }

    /// Appends one typed character to the search input.
    pub fn search_input_char(&mut self, c: char)
        requires
            old(self).wf(),
        ensures
            final(self).wf(),
            *final(self) == (App { search_input: final(self).search_input, ..*old(self) }),
            final(self).search_input@ == old(self).search_input@.push(c),
    {
        self.search_input.push(c);
    }

    /// Removes the last typed character, if any.
    pub fn search_input_backspace(&mut self)
        requires
            old(self).wf(),
        ensures
            final(self).wf(),
            *final(self) == (App { search_input: final(self).search_input, ..*old(self) }),
            old(self).search_input@.len() == 0 ==> final(self).search_input@ == old(
                self,
            ).search_input@,
            old(self).search_input@.len() > 0 ==> final(self).search_input@ == old(
                self,
            ).search_input@.drop_last(),
    {
        self.search_input.pop();
    }

    /// Submits the search input: an input whose parsed query text is empty
    /// cancels silently; otherwise the session moves to `Searching` and the
    /// caller receives the request the coordinator should run (capped at 100
    /// results, rooted at the `-b` override or the browsed directory).
    pub fn execute_search(&mut self, home: Option<&str>) -> (r: Option<SearchRequest>)
        requires
            old(self).wf(),
        ensures
            final(self).wf(),
            ({
                let p = parse_tokens(
                    tokens_of(old(self).search_input@),
                    match home {
                        Some(h) => Some(h@),
                        None => None,
                    },
                );
                let text = join_spaced(p.0);
                &&& (r is None <==> text.len() == 0)
                &&& r is None ==> {
                    &&& *final(self) == (App {
                        input_mode: InputMode::Normal,
                        search_input: final(self).search_input,
                        search_results: final(self).search_results,
                        search_selected: 0,
                        search_dirs_only: false,
                        search_pending: false,
                        ..*old(self)
                    })
                    &&& final(self).search_input@.len() == 0
                    &&& final(self).search_results@.len() == 0
                }
                &&& (r matches Some(req) ==> {
                    &&& req.query@ == text
                    &&& req.exact == p.1
                    &&& req.dirs_only == (old(self).search_dirs_only || p.2)
                    &&& req.base_dir@ == (match p.3 {
                        Some(b) => b,
                        None => old(self).browser.current_dir@,
                    })
                    &&& req.max_results == 100
                    &&& *final(self) == (App {
                        input_mode: InputMode::Searching,
                        search_pending: true,
                        spinner_frame: 0,
                        ..*old(self)
                    })
                })
            }),
    {
        let q = parse(self.search_input.as_str(), self.search_dirs_only, home);
        if q.text.as_str().unicode_len() == 0 {
            self.cancel_search();
            return None;
        }
        let base_dir = match q.base_path {
            Some(b) => b,
            None => self.browser.current_dir.clone(),
        };
        self.search_pending = true;
        self.spinner_frame = 0;
        self.input_mode = InputMode::Searching;
        Some(
            SearchRequest {
                query: q.text,
                base_dir,
                dirs_only: q.dirs_only,
                exact: q.exact,
                max_results: 100,
            },
        )
    }

    /// Feeds one poll of the in-flight search into the session. `Pending`
    /// only advances the spinner; `Ready` installs the results and moves to
    /// `SearchResult` (or reports no results and returns to `Normal`);
    /// `Failed` reports the failure and returns to `Normal`. Returns whether
    /// the search reached a terminal outcome. Without an in-flight search
    /// nothing happens.
    pub fn poll_search(&mut self, poll: SearchPoll) -> (done: bool)
        requires
            old(self).wf(),
        ensures
            final(self).wf(),
            !old(self).search_pending ==> (*final(self) == *old(self) && !done),
            old(self).search_pending ==> match poll {
                SearchPoll::Pending => {
                    &&& !done
                    &&& *final(self) == (App {
                        spinner_frame: ((old(self).spinner_frame + 1) % 10) as usize,
                        ..*old(self)
                    })
                },
                SearchPoll::Ready(results) => {
                    &&& done
                    &&& results@.len() == 0 ==> *final(self) == (App {
                        search_results: final(self).search_results,
                        search_selected: 0,
                        search_pending: false,
                        status_message: Some(StatusMessage::NoResults),
                        input_mode: InputMode::Normal,
                        ..*old(self)
                    }) && final(self).search_results@.len() == 0
                    &&& results@.len() > 0 ==> *final(self) == (App {
                        search_results: final(self).search_results,
                        search_selected: 0,
                        search_pending: false,
                        input_mode: InputMode::SearchResult,
                        ..*old(self)
                    }) && final(self).search_results@ == results@
                },
                SearchPoll::Failed => {
                    &&& done
                    &&& *final(self) == (App {
                        search_pending: false,
                        status_message: Some(StatusMessage::SearchFailed),
                        input_mode: InputMode::Normal,
                        ..*old(self)
                    })
                },
            },
    {
        if !self.search_pending {
            return false;
        }
        match poll {
            SearchPoll::Pending => {
                self.spinner_frame = (self.spinner_frame + 1) % 10;
                false
            },
            SearchPoll::Ready(results) => {
                self.search_results = results;
                self.search_selected = 0;
                self.search_pending = false;
                if self.search_results.len() == 0 {
                    self.status_message = Some(StatusMessage::NoResults);
                    self.input_mode = InputMode::Normal;
                } else {
                    self.input_mode = InputMode::SearchResult;
                }
                true
            },
            SearchPoll::Failed => {
                self.search_pending = false;
                self.status_message = Some(StatusMessage::SearchFailed);
                self.input_mode = InputMode::Normal;
                true
            },
        }
    }

    /// The spinner glyph for a frame counter.
    pub open spec fn spinner_glyph(frame: int) -> char {
        if frame == 0 {
            '\u{280b}'
        } else if frame == 1 {
            '\u{2819}'
        } else if frame == 2 {
            '\u{2839}'
        } else if frame == 3 {
            '\u{2838}'
        } else if frame == 4 {
            '\u{283c}'
        } else if frame == 5 {
            '\u{2834}'
        } else if frame == 6 {
            '\u{2826}'
        } else if frame == 7 {
            '\u{2827}'
        } else if frame == 8 {
            '\u{2807}'
        } else {
            '\u{280f}'
        }
    }

    /// The progress glyph for the current spinner frame.
    pub fn spinner_char(&self) -> (r: char)
        requires
            self.wf(),
        ensures
            r == Self::spinner_glyph(self.spinner_frame as int),
    {
        if self.spinner_frame == 0 {
            '\u{280b}'
        } else if self.spinner_frame == 1 {
            '\u{2819}'
        } else if self.spinner_frame == 2 {
            '\u{2839}'
        } else if self.spinner_frame == 3 {
            '\u{2838}'
        } else if self.spinner_frame == 4 {
            '\u{283c}'
        } else if self.spinner_frame == 5 {
            '\u{2834}'
        } else if self.spinner_frame == 6 {
            '\u{2826}'
        } else if self.spinner_frame == 7 {
            '\u{2827}'
        } else if self.spinner_frame == 8 {
            '\u{2807}'
        } else {
            '\u{280f}'
        }
    }

    /// The directory a confirm step would need freshly read: the selected
    /// result itself when it is a directory, its parent when it is a file;
    /// nothing when there is no selected result or a root file has no
    /// parent.
    pub fn confirm_read_target(&self) -> (r: Option<String>)
        requires
            self.wf(),
        ensures
            ({
                let has = self.search_results@.len() > 0;
                let sel = self.search_results@[self.search_selected as int];
                match r {
                    Some(d) => has && (if sel.is_dir {
                        d@ == sel.path@
                    } else {
                        parent_of(sel.path@) == Some(d@)
                    }),
                    None => (has == false) || (!sel.is_dir && parent_of(sel.path@) is None),
                }
            }),
    {
        if self.search_results.len() == 0 {
            return None;
        }
        let sel = &self.search_results[self.search_selected];
        if sel.is_dir {
            Some(sel.path.clone())
        } else {
            str_parent(sel.path.as_str())
        }
    }

    /// Resolves the selected search result. A directory re-roots the browser
    /// there and returns to `Normal`; a file re-roots the browser at its
    /// parent (when it has one), re-selects the file by name, and moves to
    /// `Preview`. Without a selected result the search is cancelled. `raw`
    /// is the fresh read of `confirm_read_target`.
    pub fn confirm_search_result(&mut self, raw: Option<Vec<FileEntry>>)
        requires
            old(self).wf(),
            raw is Some <==> (old(self).search_results@.len() > 0 && (old(self).search_results@[old(
                self,
            ).search_selected as int].is_dir || parent_of(
                old(self).search_results@[old(self).search_selected as int].path@,
            ) is Some)),
        ensures
            final(self).wf(),
            old(self).search_results@.len() == 0 ==> {
                &&& *final(self) == (App {
                    input_mode: InputMode::Normal,
                    search_input: final(self).search_input,
                    search_results: final(self).search_results,
                    search_selected: 0,
                    search_dirs_only: false,
                    search_pending: false,
                    ..*old(self)
                })
                &&& final(self).search_input@.len() == 0
                &&& final(self).search_results@.len() == 0
            },
            old(self).search_results@.len() > 0 ==> {
                let sel = old(self).search_results@[old(self).search_selected as int];
                &&& final(self).search_input@.len() == 0
                &&& final(self).search_results@.len() == 0
                &&& final(self).search_selected == 0
                &&& (sel.is_dir ==> {
                    &&& final(self).input_mode is Normal
                    &&& *final(self) == (App {
                        input_mode: InputMode::Normal,
                        search_input: final(self).search_input,
                        search_results: final(self).search_results,
                        search_selected: 0,
                        browser: final(self).browser,
                        ..*old(self)
                    })
                    &&& final(self).browser.current_dir@ == sel.path@
                    &&& final(self).browser.show_hidden == old(self).config.show_hidden
                    &&& is_listing_of(
                        final(self).browser.entries@,
                        raw->Some_0@,
                        old(self).config.show_hidden,
                    )
                    &&& final(self).browser.selected_index == 0
                })
                &&& (!sel.is_dir ==> {
                    &&& final(self).input_mode is Preview
                    &&& *final(self) == (App {
                        input_mode: InputMode::Preview,
                        search_input: final(self).search_input,
                        search_results: final(self).search_results,
                        search_selected: 0,
                        browser: final(self).browser,
                        ..*old(self)
                    })
                    &&& (parent_of(sel.path@) is None ==> final(self).browser == old(self).browser)
                    &&& (parent_of(sel.path@) matches Some(parent) ==> {
                        &&& final(self).browser.current_dir@ == parent
                        &&& final(self).browser.show_hidden == old(self).config.show_hidden
                        &&& is_listing_of(
                            final(self).browser.entries@,
                            raw->Some_0@,
                            old(self).config.show_hidden,
                        )
                        &&& {
                            let idx = index_of_name(
                                final(self).browser.entries@,
                                tail_after_last(sel.path@, '/'),
                            );
                            final(self).browser.selected_index as int == (if idx >= 0 {
                                idx
                            } else {
                                0int
                            })
                        }
                    })
                })
            },
    {
        if self.search_results.len() == 0 {
            self.cancel_search();
            return ;
        }
        let sel = crate::search::clone_result(&self.search_results[self.search_selected]);
        self.input_mode = InputMode::Normal;
        self.search_input = String::new();
        self.search_results = Vec::new();
        self.search_selected = 0;
        if sel.is_dir {
            match raw {
                Some(raw_entries) => {
                    self.browser = FileBrowser::new(sel.path, raw_entries, self.config.show_hidden);
                },
                None => {},
            }
        } else {
            match str_parent(sel.path.as_str()) {
                Some(parent) => {
                    match raw {
                        Some(raw_entries) => {
                            let name = str_tail_after_last(sel.path.as_str(), '/');
                            self.browser = FileBrowser::new(
                                parent,
                                raw_entries,
                                self.config.show_hidden,
                            );
                            match crate::browser::find_name(&self.browser.entries, name.as_str()) {
                                Some(idx) => {
                                    self.browser.selected_index = idx;
                                },
                                None => {},
                            }
                        },
                        None => {},
                    }
                },
                None => {},
            }
            self.input_mode = InputMode::Preview;
        }
    }

    /// Moves the result selection up with wraparound; a no-op on an empty
    /// result list.
    pub fn search_move_up(&mut self)
        requires
            old(self).wf(),
        ensures
            final(self).wf(),
            *final(self) == (App {
                search_selected: final(self).search_selected,
                ..*old(self)
            }),
            old(self).search_results@.len() == 0 ==> final(self).search_selected == old(
                self,
            ).search_selected,
            old(self).search_results@.len() > 0 ==> final(self).search_selected as int == (if old(
                self,
            ).search_selected > 0 {
                old(self).search_selected - 1
            } else {
                old(self).search_results@.len() - 1
            }),
    {
        if self.search_results.len() == 0 {
            return ;
        }
        if self.search_selected > 0 {
            self.search_selected = self.search_selected - 1;
        } else {
            self.search_selected = self.search_results.len() - 1;
        }
    }

    /// Moves the result selection down with wraparound; a no-op on an empty
    /// result list.
    pub fn search_move_down(&mut self)
        requires
            old(self).wf(),
        ensures
            final(self).wf(),
            *final(self) == (App {
                search_selected: final(self).search_selected,
                ..*old(self)
            }),
            old(self).search_results@.len() == 0 ==> final(self).search_selected == old(
                self,
            ).search_selected,
            old(self).search_results@.len() > 0 ==> final(self).search_selected as int == (if (old(
                self,
            ).search_selected as int) < old(self).search_results@.len() - 1 {
                old(self).search_selected + 1
            } else {
                0int
            }),
    {
        if self.search_results.len() == 0 {
            return ;
        }
        if self.search_selected < self.search_results.len() - 1 {
            self.search_selected = self.search_selected + 1;
        } else {
            self.search_selected = 0;
        }
    }

    /// Returns to search input from the result list, clearing the typed text
    /// but keeping the results on screen until the next submission.
    pub fn restart_search_input(&mut self)
        requires
            old(self).wf(),
        ensures
            final(self).wf(),
            *final(self) == (App {
                input_mode: InputMode::SearchInput,
                search_input: final(self).search_input,
                ..*old(self)
            }),
            final(self).search_input@.len() == 0,
    {
        self.search_input = String::new();
        self.input_mode = InputMode::SearchInput;
    }

    /// Scrolls the preview up, saturating at the top.
    pub fn scroll_preview_up(&mut self, amount: usize)
        requires
            old(self).wf(),
        ensures
            final(self).wf(),
            *final(self) == (App { preview_scroll: final(self).preview_scroll, ..*old(self) }),
            final(self).preview_scroll as int == (if old(self).preview_scroll >= amount {
                old(self).preview_scroll - amount
            } else {
                0int
            }),
    {
        self.preview_scroll = if self.preview_scroll >= amount {
            self.preview_scroll - amount
        } else {
            0
        };
    }

    /// Scrolls the preview down, saturating at the last viewport; a no-op
    /// without content.
    pub fn scroll_preview_down(&mut self, amount: usize)
        requires
            old(self).wf(),
        ensures
            final(self).wf(),
            *final(self) == (App { preview_scroll: final(self).preview_scroll, ..*old(self) }),
            old(self).preview_content is None ==> final(self).preview_scroll == old(
                self,
            ).preview_scroll,
            old(self).preview_content is Some ==> final(self).preview_scroll as int == (if old(
                self,
            ).preview_scroll + amount <= old(self).preview_max_scroll() {
                old(self).preview_scroll + amount
            } else {
                old(self).preview_max_scroll()
            }),
    {
        if self.preview_content.is_none() {
            return ;
        }
        let total = match &self.preview_content {
            Some(c) => c.lines.len(),
            None => 0,
        };
        let max_scroll = if total > self.preview_height {
            total - self.preview_height
        } else {
            0
        };
        let room = max_scroll - self.preview_scroll;
        self.preview_scroll = if amount <= room {
            self.preview_scroll + amount
        } else {
            max_scroll
        };
    }

    /// Adopts the viewport height the renderer measured this frame and
    /// re-clamps the scroll offset against it.
    pub fn set_preview_height(&mut self, height: usize)
        requires
            old(self).wf(),
        ensures
            final(self).wf(),
            *final(self) == (App {
                preview_height: height,
                preview_scroll: final(self).preview_scroll,
                ..*old(self)
            }),
            ({
                let capped = final(self).preview_max_scroll();
                final(self).preview_scroll as int == (if (old(self).preview_scroll as int)
                    <= capped {
                    old(self).preview_scroll as int
                } else {
                    capped
                })
            }),
    {
        self.preview_height = height;
        let total = match &self.preview_content {
            Some(c) => c.lines.len(),
            None => 0,
        };
        let max_scroll = if total > self.preview_height {
            total - self.preview_height
        } else {
            0
        };
        if self.preview_scroll > max_scroll {
            self.preview_scroll = max_scroll;
        }
    }

    /// Ends the session.
    pub fn quit(&mut self)
        requires
            old(self).wf(),
        ensures
            final(self).wf(),
            *final(self) == (App { should_quit: true, ..*old(self) }),
    {
        self.should_quit = true;
    }

    /// Waits for the jump character.
    pub fn start_jump(&mut self)
        requires
            old(self).wf(),
        ensures
            final(self).wf(),
            *final(self) == (App { input_mode: InputMode::JumpInput, ..*old(self) }),
    {
        self.input_mode = InputMode::JumpInput;
    }

    /// Jumps forward to `c`, remembers it for repeat jumps, and returns to
    /// `Normal`.
    pub fn execute_jump(&mut self, c: char)
        requires
            old(self).wf(),
        ensures
            final(self).wf(),
            *final(self) == (App {
                last_jump_char: Some(c),
                input_mode: InputMode::Normal,
                browser: final(self).browser,
                status_message: final(self).status_message,
                ..*old(self)
            }),
            jump_step_ok(*old(self), *final(self), c, true),
    {
        self.last_jump_char = Some(c);
        self.jump_to_char(c, true);
        self.input_mode = InputMode::Normal;
    }

    /// Repeats the remembered jump forward; a no-op without one.
    pub fn jump_next(&mut self)
        requires
            old(self).wf(),
        ensures
            final(self).wf(),
            old(self).last_jump_char is None ==> *final(self) == *old(self),
            old(self).last_jump_char matches Some(c) ==> (*final(self) == (App {
                browser: final(self).browser,
                status_message: final(self).status_message,
                ..*old(self)
            }) && jump_step_ok(*old(self), *final(self), c, true)),
    {
        match self.last_jump_char {
            Some(c) => {
                self.jump_to_char(c, true);
            },
            None => {},
        }
    }

    /// Repeats the remembered jump backward; a no-op without one.
    pub fn jump_prev(&mut self)
        requires
            old(self).wf(),
        ensures
            final(self).wf(),
            old(self).last_jump_char is None ==> *final(self) == *old(self),
            old(self).last_jump_char matches Some(c) ==> (*final(self) == (App {
                browser: final(self).browser,
                status_message: final(self).status_message,
                ..*old(self)
            }) && jump_step_ok(*old(self), *final(self), c, false)),
    {
        match self.last_jump_char {
            Some(c) => {
                self.jump_to_char(c, false);
            },
            None => {},
        }
    }

    /// Moves the browser selection to where `jump` lands, or notes the
    /// missing match; a no-op on an empty listing.
    fn jump_to_char(&mut self, c: char, forward: bool)
        requires
            old(self).wf(),
        ensures
            final(self).wf(),
            *final(self) == (App {
                browser: final(self).browser,
                status_message: final(self).status_message,
                ..*old(self)
            }),
            jump_step_ok(*old(self), *final(self), c, forward),
    {
        if self.browser.entries.len() == 0 {
            return ;
        }
        match jump(&self.browser.entries, self.browser.selected_index, c, forward) {
            Some(idx) => {
                self.browser.selected_index = idx;
            },
            None => {
                self.status_message = Some(StatusMessage::NoMatch(c));
            },
        }
    }

    /// Cancels jump input.
    pub fn cancel_jump(&mut self)
        requires
            old(self).wf(),
        ensures
            final(self).wf(),
            *final(self) == (App { input_mode: InputMode::Normal, ..*old(self) }),
    {
        self.input_mode = InputMode::Normal;
    }

    /// Shows the help overlay.
    pub fn show_help(&mut self)
        requires
            old(self).wf(),
        ensures
            final(self).wf(),
            *final(self) == (App { input_mode: InputMode::Help, ..*old(self) }),
    {
        self.input_mode = InputMode::Help;
    }

    /// Closes the help overlay.
    pub fn close_help(&mut self)
        requires
            old(self).wf(),
        ensures
            final(self).wf(),
            *final(self) == (App { input_mode: InputMode::Normal, ..*old(self) }),
    {
        self.input_mode = InputMode::Normal;
    }
}

/// What one jump attempt does to the state: on an empty listing nothing; on
/// a hit the selection moves where `jump_spec` says and the browser is
/// otherwise untouched; on a miss the selection stays and the missing match
/// is noted.
pub open spec fn jump_step_ok(a: App, b: App, c: char, forward: bool) -> bool {
    if a.browser.entries@.len() == 0 {
        b.browser == a.browser && b.status_message == a.status_message
    } else {
        match jump_spec(a.browser.entries@, a.browser.selected_index as int, c, forward) {
            Some(j) => {
                &&& b.browser == (FileBrowser {
                    selected_index: b.browser.selected_index,
                    ..a.browser
                })
                &&& b.browser.selected_index as int == j
                &&& b.status_message == a.status_message
            },
            None => {
                &&& b.browser == a.browser
                &&& b.status_message == Some(StatusMessage::NoMatch(c))
            },
        }
    }
}

} // verus!
