//! Searches in the background: what is run, what is made of each line that comes, and which
//! messages go back.

use crate::app::Msg;
use crate::search::{
    counted, counted_all, fd_cmd, fd_command, filter_fd_list, filtered, parse_count_line,
    rg_cmd, rg_command, views, CommandLine, ItemView, SearchResultItem,
};
use crate::state::{elapsed, opt_files, MsgView};
use crate::text::texts;
use std::sync::Arc;
use vstd::prelude::*;

verus! {

/// How many results of a search of contents are sent together at most.
pub const BATCH_SIZE: usize = 100;

/// How long a result of a search of contents waits for others, in milliseconds.
pub const BATCH_INTERVAL: u64 = 16;

// ------------------------------------------------------------ file names

/// How a search of file names begins.
#[derive(Debug)]
pub enum FileSearchStart {
    /// A list of files was at hand, and the search is over.
    Done(Msg),
    /// The command is to be run, and its lines handed to the search.
    Run { cmd: CommandLine, search: FileSearch },
}

/// A search of file names whose list of files is being read.
#[derive(Debug)]
pub struct FileSearch {
    pub gen: u64,
    pub root: String,
    pub query: String,
    pub files: Vec<String>,
    pub cancelled: bool,
}

/// The message that ends a search of file names.
pub open spec fn files_done(
    gen: u64,
    root: Seq<char>,
    query: Seq<char>,
    files: Seq<Seq<char>>,
    fresh: bool,
) -> MsgView {
    MsgView::SearchDone {
        gen,
        content: false,
        items: filtered(root, query, files),
        new_file_list: if fresh {
            Some((root, files))
        } else {
            None
        },
    }
}

/// The message that ends a search that could not be run, or whose results were sent before.
pub open spec fn nothing_more(gen: u64, content: bool) -> MsgView {
    MsgView::SearchDone { gen, content, items: Seq::empty(), new_file_list: None }
}

/// Gives the message for a search whose command could not be run, and the message that ends a
/// search of contents.
pub fn search_over(gen: u64, content: bool) -> (msg: Msg)
    ensures
        msg@ == nothing_more(gen, content),
{
    let items: Vec<SearchResultItem> = Vec::new();
    assert(views(items@) == Seq::<ItemView>::empty());
    Msg::SearchDone { gen, content, items, new_file_list: None }
}

/// Begins a search of file names: a list of files at hand is filtered, otherwise `fd` is to list
/// them.
pub fn fd_search_job(
    gen: u64,
    root: String,
    query: String,
    cached: Option<Arc<Vec<String>>>,
    excludes: &Vec<String>,
    max_bytes: u64,
) -> (start: FileSearchStart)
    ensures
        match opt_files(cached) {
            Some(files) => start matches FileSearchStart::Done(msg) && msg@ == files_done(
                gen,
                root@,
                query@,
                files,
                false,
            ),
            None => start matches FileSearchStart::Run { cmd, search } && cmd@ == fd_command(
                root@,
                texts(excludes@),
                max_bytes,
            ) && search.begun(gen, root@, query@, Seq::empty(), false),
        },
{
    match cached {
        Some(list) => {
            let items = filter_fd_list(root.as_str(), query.as_str(), &*list);
            FileSearchStart::Done(
                Msg::SearchDone { gen, content: false, items, new_file_list: None },
            )
        },
        None => {
            let cmd = fd_cmd(root.as_str(), excludes, max_bytes);
            let search = FileSearch { gen, root, query, files: Vec::new(), cancelled: false };
            assert(texts(search.files@) == Seq::<Seq<char>>::empty());
            FileSearchStart::Run { cmd, search }
        },
    }
}

/// The files among the lines of `fd`: those lines that are not empty.
pub open spec fn files_of(lines: Seq<Seq<char>>) -> Seq<Seq<char>> {
    lines.filter(|l: Seq<char>| l.len() > 0)
}

impl FileSearch {
    /// What the search was asked, which files it has, and whether it was cancelled.
    pub open spec fn begun(
        self,
        gen: u64,
        root: Seq<char>,
        query: Seq<char>,
        files: Seq<Seq<char>>,
        cancelled: bool,
    ) -> bool {
        &&& self.gen == gen
        &&& self.root@ == root
        &&& self.query@ == query
        &&& texts(self.files@) == files
        &&& self.cancelled == cancelled
    }

    /// Takes a line of `fd`; tells whether to go on. A search that was cancelled takes no more.
    pub fn on_line(&mut self, line: String, cancel: bool) -> (go_on: bool)
        ensures
            go_on == !cancel,
            final(self).begun(
                old(self).gen,
                old(self).root@,
                old(self).query@,
                if cancel || line@.len() == 0 {
                    texts(old(self).files@)
                } else {
                    texts(old(self).files@).push(line@)
                },
                old(self).cancelled || cancel,
            ),
    {
        if cancel {
            self.cancelled = true;
            return false;
        }
        if !line.as_str().is_empty() {
            self.files.push(line);
            assert(texts(self.files@) == texts(old(self).files@).push(line@));
        }
        true
    }

    /// Ends the search: the files are filtered, and the list goes back to be kept. Of a search
    /// that was cancelled, while its lines came or behind the last of them, nothing goes back,
    /// since its list is not complete.
    pub fn finish(self, cancel: bool) -> (msg: Option<Msg>)
        ensures
            msg is None <==> self.cancelled || cancel,
            msg matches Some(m) ==> m@ == files_done(
                self.gen,
                self.root@,
                self.query@,
                texts(self.files@),
                true,
            ),
    {
        if self.cancelled || cancel {
            return None;
        }
        let items = filter_fd_list(self.root.as_str(), self.query.as_str(), &self.files);
        let list = Arc::new(self.files);
        Some(
            Msg::SearchDone {
                gen: self.gen,
                content: false,
                items,
                new_file_list: Some((self.root, list)),
            },
        )
    }
}

/// The files of a search grow by those of each line: after all lines they are the lines that are
/// not empty.
pub proof fn files_grow_by_line(lines: Seq<Seq<char>>, line: Seq<char>)
    ensures
        files_of(lines.push(line)) == if line.len() == 0 {
            files_of(lines)
        } else {
            files_of(lines).push(line)
        },
{
    reveal(Seq::filter);
    assert(lines.push(line).drop_last() == lines);
}

// ------------------------------------------------------------ file contents

/// A search of contents whose lines are being read.
#[derive(Debug)]
pub struct ContentSearch {
    pub gen: u64,
    pub root: String,
    /// The results that were not sent yet.
    pub batch: Vec<SearchResultItem>,
    /// When results were sent last.
    pub flushed: u64,
}

/// What is seen of a search of contents.
#[verifier::ext_equal]
pub struct ContentView {
    pub gen: u64,
    pub root: Seq<char>,
    pub batch: Seq<ItemView>,
    pub flushed: u64,
}

impl View for ContentSearch {
    type V = ContentView;

    open spec fn view(&self) -> ContentView {
        ContentView {
            gen: self.gen,
            root: self.root@,
            batch: views(self.batch@),
            flushed: self.flushed,
        }
    }
}

/// What is to be done behind a line.
#[derive(Debug)]
pub enum LineOutcome {
    /// Read no more.
    Stop,
    /// Read on.
    Continue,
    /// Send the message, and read on where it was taken.
    Send(Msg),
}

impl ContentView {
    /// The results with that of a line, where it gives one.
    pub open spec fn with_line(self, line: Seq<char>) -> Seq<ItemView> {
        match counted(self.root, line) {
            Some(item) => self.batch.push(item),
            None => self.batch,
        }
    }

    /// Whether the results are sent behind a line: there are enough, or they waited long enough.
    pub open spec fn full(self, line: Seq<char>, now: u64) -> bool {
        let batch = self.with_line(line);
        batch.len() >= BATCH_SIZE || (batch.len() > 0 && elapsed(self.flushed, now)
            >= BATCH_INTERVAL)
    }

    /// The search behind a line.
    pub open spec fn behind(self, line: Seq<char>, now: u64) -> ContentView {
        if self.full(line, now) {
            ContentView { batch: Seq::empty(), flushed: now, ..self }
        } else {
            ContentView { batch: self.with_line(line), ..self }
        }
    }

    /// The results that are sent behind a line.
    pub open spec fn sent(self, line: Seq<char>, now: u64) -> Seq<ItemView> {
        if self.full(line, now) {
            self.with_line(line)
        } else {
            Seq::empty()
        }
    }

    /// The search behind several lines, each read at a time.
    pub open spec fn behind_all(self, lines: Seq<(Seq<char>, u64)>) -> ContentView
        decreases lines.len(),
    {
        if lines.len() == 0 {
            self
        } else {
            self.behind_all(lines.drop_last()).behind(lines.last().0, lines.last().1)
        }
    }

    /// The results that are sent behind several lines.
    pub open spec fn sent_all(self, lines: Seq<(Seq<char>, u64)>) -> Seq<ItemView>
        decreases lines.len(),
    {
        if lines.len() == 0 {
            Seq::empty()
        } else {
            self.sent_all(lines.drop_last()) + self.behind_all(lines.drop_last()).sent(
                lines.last().0,
                lines.last().1,
            )
        }
    }
}

/// Begins a search of contents at the time `now`: gives the command to run, and the search that
/// takes its lines.
pub fn rg_stream(
    gen: u64,
    root: String,
    query: &str,
    globs: &Vec<String>,
    max_bytes: u64,
    now: u64,
) -> (r: (CommandLine, ContentSearch))
    ensures
        r.0@ == rg_command(root@, query@, texts(globs@), max_bytes),
        r.1@ == (ContentView { gen, root: root@, batch: Seq::empty(), flushed: now }),
{
    let cmd = rg_cmd(root.as_str(), query, globs, max_bytes);
    let search = ContentSearch { gen, root, batch: Vec::new(), flushed: now };
    assert(search@.batch == Seq::<ItemView>::empty());
    (cmd, search)
}

impl ContentSearch {
    /// Takes a line of `rg` read at the time `now`; a search that was cancelled stops.
    pub fn on_line(&mut self, line: &str, cancel: bool, now: u64) -> (r: LineOutcome)
        ensures
            cancel ==> r is Stop && final(self)@ == old(self)@,
            !cancel ==> final(self)@ == old(self)@.behind(line@, now),
            !cancel ==> (r is Send <==> old(self)@.full(line@, now)),
            !cancel ==> (r is Continue <==> !old(self)@.full(line@, now)),
            r matches LineOutcome::Send(msg) ==> msg@ == (MsgView::SearchBatch {
                gen: old(self)@.gen,
                items: old(self)@.sent(line@, now),
            }),
    {
        if cancel {
            return LineOutcome::Stop;
        }
        match parse_count_line(self.root.as_str(), line) {
            Some(item) => {
                self.batch.push(item);
                assert(views(self.batch@) == views(old(self).batch@).push(item@));
            },
            None => {},
        }
        let n: usize = self.batch.len();
        if n >= BATCH_SIZE || (n > 0 && now.saturating_sub(self.flushed) >= BATCH_INTERVAL) {
            let mut items: Vec<SearchResultItem> = Vec::new();
            core::mem::swap(&mut items, &mut self.batch);
            assert(views(self.batch@) == Seq::<ItemView>::empty());
            self.flushed = now;
            return LineOutcome::Send(Msg::SearchBatch { gen: self.gen, items });
        }
        LineOutcome::Continue
    }

    /// Ends the search: what was not sent yet, where there is something, and the end itself.
    pub fn finish(self) -> (r: (Option<Msg>, Msg))
        ensures
            r.0 is Some <==> self@.batch.len() > 0,
            r.0 matches Some(msg) ==> msg@ == (MsgView::SearchBatch {
                gen: self@.gen,
                items: self@.batch,
            }),
            r.1@ == nothing_more(self@.gen, true),
    {
        let gen: u64 = self.gen;
        let last = if self.batch.len() > 0 {
            Some(Msg::SearchBatch { gen, items: self.batch })
        } else {
            None
        };
        (last, search_over(gen, true))
    }
}

/// The lines without the times at which they were read.
pub open spec fn untimed(lines: Seq<(Seq<char>, u64)>) -> Seq<Seq<char>> {
    lines.map_values(|l: (Seq<char>, u64)| l.0)
}

/// No result is lost, sent twice or out of order: what was sent and what is still to be sent are
/// the results of the lines, whenever they were read.
pub proof fn batches_hold_results(start: ContentView, lines: Seq<(Seq<char>, u64)>)
    requires
        start.batch.len() == 0,
    ensures
        start.sent_all(lines) + start.behind_all(lines).batch == counted_all(
            start.root,
            untimed(lines),
        ),
        start.behind_all(lines).root == start.root,
        start.behind_all(lines).gen == start.gen,
        start.behind_all(lines).batch.len() < BATCH_SIZE,
    decreases lines.len(),
{
    if lines.len() == 0 {
        assert(start.sent_all(lines) + start.batch == Seq::<ItemView>::empty());
    } else {
        let front = lines.drop_last();
        batches_hold_results(start, front);
        let s = start.behind_all(front);
        let (line, now) = lines.last();
        assert(untimed(lines).drop_last() == untimed(front));
        let before = start.sent_all(front);
        assert(before + s.with_line(line) == counted_all(start.root, untimed(lines)));
        if s.full(line, now) {
            assert((before + s.with_line(line)) + Seq::<ItemView>::empty() == before
                + s.with_line(line));
        } else {
            assert(before + Seq::<ItemView>::empty() == before);
        }
    }
}

} // verus!
