//! The walk as a machine: what to look up next, and what follows from what was found.
//!
//! The walk alternates between questions about the disk and decisions on the answers. A
//! [`Walker`] holds its state: [`Walker::request`] says what to look up next, and the `answer_*`
//! methods take what was found. [`enumerate`] drives a walker over a recorded tree.
use vstd::prelude::*;

use crate::inventory::walk::{
    batch_judged_size, batch_outcome, dedup_by_path, deduped, deduped_is_complete, deeper,
    duplicate_events, entry_for, entry_from, entry_outcome, event_views, file_outcome, filter_file,
    filter_reason, has_path, is_excluded, is_own_footprint, is_superdeduper_self_path, is_wanted,
    judge_batch_entry, judge_entry, judged_size, outcome_events, outcome_files, tally_after,
    BatchEntry, DirIdentity, EntryFacts, EntryOutcome, ExclusionTally, FileFacts, FileKind,
    OutcomeView, OwnedWalkEvent, WalkEventView,
};
use crate::inventory::{
    entry_views, optional_text, passes_globs, size_in_range, FileEntry, FileEntryView,
    PathVerdicts, ScanConfig,
};
use crate::paths::{components, path_push, pushed, to_verbatim, verbatim, Platform};
use crate::tables::IdentitySet;

verus! {

/// What the walk has gathered so far.
pub struct WalkLog {
    /// The directories entered, where links are followed.
    pub visited: Set<(u64, u128)>,
    /// The files taken.
    pub files: Seq<FileEntryView>,
    /// What happened, in order.
    pub events: Seq<WalkEventView>,
    /// What the exclusion rules dropped.
    pub tally: ExclusionTally,
}

/// A directory whose entries are being read.
pub struct FrameView {
    pub dir: Seq<char>,
    pub depth: u32,
    pub volume: Option<Seq<char>>,
}

/// What the walk is about to do.
pub enum StageView {
    /// Read on in the innermost directory, or turn to the next root.
    Reading,
    /// Find out the identity of a directory before entering it.
    Identify { dir: Seq<char>, depth: u32 },
    /// Find out where a directory that was entered before really is.
    Locate { dir: Seq<char> },
    /// Open a directory.
    Open { dir: Seq<char>, depth: u32 },
    /// Nothing: this root does not exist.
    Failed { root: Seq<char> },
}

/// The state of a walk.
pub struct WalkState {
    pub next_root: nat,
    pub stage: StageView,
    pub frames: Seq<FrameView>,
    pub log: WalkLog,
}

/// What came of looking up a root.
pub enum RootFacts {
    Missing,
    /// The lookup failed, for this reason.
    Unreadable(String),
    Found(FileFacts),
}

/// What came of opening a directory.
pub enum OpenOutcome {
    PermissionDenied,
    NotFound,
    Failed(String),
    /// The directory can be read. Where the system lists it in a batch, this names its volume.
    Opened(Option<String>),
}

/// What the next read in a directory gave.
pub enum WalkEntry {
    /// An entry that was looked up by itself.
    Entry(EntryFacts),
    /// An entry of a batch.
    Batch(BatchEntry),
    /// The system could not hand the entry out, for this reason.
    Failed(String),
}

/// The log with one more event.
pub open spec fn with_event(log: WalkLog, event: WalkEventView) -> WalkLog {
    WalkLog { events: log.events.push(event), ..log }
}

/// The log with what an outcome adds to it.
pub open spec fn with_outcome(
    cfg: ScanConfig,
    log: WalkLog,
    path: Seq<char>,
    outcome: OutcomeView,
    size: Option<u64>,
    verdicts: PathVerdicts,
) -> WalkLog {
    WalkLog {
        visited: log.visited,
        files: log.files + outcome_files(outcome),
        events: log.events + outcome_events(path, outcome),
        tally: tally_after(cfg, log.tally, size, verdicts),
    }
}

/// The state in which a directory is about to be entered. Where links are followed its identity
/// is asked for first.
pub open spec fn entering(cfg: ScanConfig, st: WalkState, dir: Seq<char>, depth: u32) -> WalkState {
    if cfg.follow_links {
        WalkState { stage: StageView::Identify { dir, depth }, ..st }
    } else {
        WalkState {
            stage: StageView::Open { dir, depth },
            log: with_event(st.log, WalkEventView::Entered { path: dir, depth }),
            ..st
        }
    }
}

/// The path under which a root is walked. On Windows it is the verbatim form, so that names
/// with trailing dots and spaces are found.
pub open spec fn walked_root(platform: Platform, root: Seq<char>) -> Seq<char> {
    if platform is Windows {
        verbatim(root)
    } else {
        root
    }
}

/// What becomes of a root that is a file: the same as of a file found in a directory.
pub open spec fn root_outcome(
    cfg: ScanConfig,
    root: Seq<char>,
    facts: FileFacts,
    verdicts: PathVerdicts,
) -> OutcomeView {
    if is_own_footprint(cfg.platform, root) {
        OutcomeView::Skip("superdeduper self-footprint"@)
    } else {
        file_outcome(cfg, facts.size, verdicts, entry_for(cfg.platform, root, facts))
    }
}

/// The size that judging a root that is a file brings before the filters, if it comes to that.
pub open spec fn root_judged_size(cfg: ScanConfig, root: Seq<char>, facts: FileFacts) -> Option<u64> {
    if is_own_footprint(cfg.platform, root) {
        None
    } else {
        Some(facts.size)
    }
}

/// The state after the next root was looked up.
pub open spec fn after_root(
    cfg: ScanConfig,
    st: WalkState,
    facts: RootFacts,
    verdicts: PathVerdicts,
) -> WalkState {
    let root = cfg.roots@[st.next_root as int]@;
    if !(requested(cfg, st) is Root) {
        st
    } else {
        match facts {
        RootFacts::Missing => WalkState {
            stage: StageView::Failed { root },
            log: with_event(
                st.log,
                WalkEventView::DirError { path: root, message: "path not found"@ },
            ),
            ..st
        },
        RootFacts::Unreadable(message) => WalkState {
            stage: StageView::Failed { root },
            log: with_event(
                st.log,
                WalkEventView::DirError { path: root, message: "metadata failed: "@ + message@ },
            ),
            ..st
        },
        RootFacts::Found(f) => if f.kind is File {
            WalkState {
                next_root: st.next_root + 1,
                log: with_outcome(
                    cfg,
                    st.log,
                    root,
                    root_outcome(cfg, root, f, verdicts),
                    root_judged_size(cfg, root, f),
                    verdicts,
                ),
                ..st
            }
        } else {
            entering(
                cfg,
                WalkState { next_root: st.next_root + 1, ..st },
                walked_root(cfg.platform, root),
                0,
            )
        },
        }
    }
}

/// The state after the identity of a directory was looked up. A directory whose identity cannot
/// be found out is passed over, since it could not be told from one entered before.
pub open spec fn after_identity(st: WalkState, identity: Option<DirIdentity>) -> WalkState {
    match st.stage {
        StageView::Identify { dir, depth } => match identity {
            None => WalkState {
                stage: StageView::Reading,
                log: with_event(
                    st.log,
                    WalkEventView::DirError { path: dir, message: "identity unavailable"@ },
                ),
                ..st
            },
            Some(id) => if st.log.visited.contains((id.volume_serial, id.file_id)) {
                WalkState { stage: StageView::Locate { dir }, ..st }
            } else {
                WalkState {
                    stage: StageView::Open { dir, depth },
                    log: with_event(
                        WalkLog {
                            visited: st.log.visited.insert((id.volume_serial, id.file_id)),
                            ..st.log
                        },
                        WalkEventView::Entered { path: dir, depth },
                    ),
                    ..st
                }
            },
        },
        _ => st,
    }
}

/// The place a directory is told to lead to: its real path, or itself where that is not known.
pub open spec fn cycle_target(dir: Seq<char>, canonical: Option<Seq<char>>) -> Seq<char> {
    match canonical {
        Some(t) => t,
        None => dir,
    }
}

/// The state after a directory that was entered before was located.
pub open spec fn after_location(st: WalkState, canonical: Option<Seq<char>>) -> WalkState {
    match st.stage {
        StageView::Locate { dir } => WalkState {
            stage: StageView::Reading,
            log: with_event(
                st.log,
                WalkEventView::SymlinkCycleSkipped { from: dir, target: cycle_target(dir, canonical) },
            ),
            ..st
        },
        _ => st,
    }
}

/// The state after a directory was opened, or could not be. One that is gone is passed over.
pub open spec fn after_open(st: WalkState, outcome: OpenOutcome) -> WalkState {
    match st.stage {
        StageView::Open { dir, depth } => match outcome {
            OpenOutcome::PermissionDenied => WalkState {
                stage: StageView::Reading,
                log: with_event(
                    st.log,
                    WalkEventView::DirError { path: dir, message: "permission denied"@ },
                ),
                ..st
            },
            OpenOutcome::NotFound => WalkState { stage: StageView::Reading, ..st },
            OpenOutcome::Failed(message) => WalkState {
                stage: StageView::Reading,
                log: with_event(st.log, WalkEventView::DirError { path: dir, message: message@ }),
                ..st
            },
            OpenOutcome::Opened(volume) => WalkState {
                stage: StageView::Reading,
                frames: st.frames.push(FrameView { dir, depth, volume: optional_text(volume) }),
                ..st
            },
        },
        _ => st,
    }
}

/// The log after one entry of a directory.
pub open spec fn log_after_entry(
    cfg: ScanConfig,
    log: WalkLog,
    frame: FrameView,
    entry: WalkEntry,
) -> WalkLog {
    match entry {
        WalkEntry::Failed(message) => with_event(
            log,
            WalkEventView::DirError { path: frame.dir, message: "entry error: "@ + message@ },
        ),
        WalkEntry::Entry(e) => with_outcome(
            cfg,
            log,
            e.path@,
            entry_outcome(cfg, e.path@, e.own, e.target, e.verdicts),
            judged_size(cfg, e.path@, e.own, e.target),
            e.verdicts,
        ),
        WalkEntry::Batch(b) => {
            let path = pushed(cfg.platform, frame.dir, b.name@);
            with_outcome(
                cfg,
                log,
                path,
                batch_outcome(cfg, path, b, frame.volume),
                batch_judged_size(cfg, path, b),
                b.verdicts,
            )
        },
    }
}

/// The directory that an entry leads into, if it is one to go into.
pub open spec fn child_of(cfg: ScanConfig, frame: FrameView, entry: WalkEntry) -> Option<Seq<char>> {
    match entry {
        WalkEntry::Failed(_) => None,
        WalkEntry::Entry(e) => if entry_outcome(cfg, e.path@, e.own, e.target, e.verdicts) is Descend {
            Some(e.path@)
        } else {
            None
        },
        WalkEntry::Batch(b) => {
            let path = pushed(cfg.platform, frame.dir, b.name@);
            if batch_outcome(cfg, path, b, frame.volume) is Descend {
                Some(path)
            } else {
                None
            }
        },
    }
}

/// The state after one more read in the innermost directory. `None` is the end of it.
pub open spec fn after_entry(cfg: ScanConfig, st: WalkState, entry: Option<WalkEntry>) -> WalkState {
    if !(requested(cfg, st) is NextEntry) {
        st
    } else {
        match entry {
            None => WalkState { frames: st.frames.drop_last(), ..st },
            Some(e) => {
                let frame = st.frames.last();
                let next = WalkState { log: log_after_entry(cfg, st.log, frame, e), ..st };
                match child_of(cfg, frame, e) {
                    Some(dir) => entering(cfg, next, dir, deeper(frame.depth)),
                    None => next,
                }
            },
        }
    }
}

/// A directory whose entries are being read.
struct Frame {
    dir: String,
    depth: u32,
    volume: Option<String>,
}

impl View for Frame {
    type V = FrameView;

    closed spec fn view(&self) -> FrameView {
        FrameView { dir: self.dir@, depth: self.depth, volume: optional_text(self.volume) }
    }
}

enum Stage {
    Reading,
    Identify { dir: String, depth: u32 },
    Locate { dir: String },
    Open { dir: String, depth: u32 },
    Failed { root: String },
}

impl View for Stage {
    type V = StageView;

    closed spec fn view(&self) -> StageView {
        match self {
            Stage::Reading => StageView::Reading,
            Stage::Identify { dir, depth } => StageView::Identify { dir: dir@, depth: *depth },
            Stage::Locate { dir } => StageView::Locate { dir: dir@ },
            Stage::Open { dir, depth } => StageView::Open { dir: dir@, depth: *depth },
            Stage::Failed { root } => StageView::Failed { root: root@ },
        }
    }
}

/// What to look up next.
pub enum WalkRequest<'a> {
    /// Look up this root; answer with [`Walker::answer_root`].
    Root(&'a str),
    /// Find out the identity of this directory; answer with [`Walker::answer_identity`].
    Identity(&'a str),
    /// Find out where this directory really is; answer with [`Walker::answer_location`].
    Location(&'a str),
    /// Open this directory; answer with [`Walker::answer_open`].
    Open(&'a str),
    /// Read on in this directory, the one opened last that was not read to its end; answer with
    /// [`Walker::answer_entry`].
    NextEntry(&'a str),
    /// Nothing; the walk is over.
    Nothing,
}

/// A request with its text as a character sequence.
pub enum RequestView {
    Root(Seq<char>),
    Identity(Seq<char>),
    Location(Seq<char>),
    Open(Seq<char>),
    NextEntry(Seq<char>),
    Nothing,
}

impl<'a> View for WalkRequest<'a> {
    type V = RequestView;

    open spec fn view(&self) -> RequestView {
        match self {
            WalkRequest::Root(p) => RequestView::Root(p@),
            WalkRequest::Identity(p) => RequestView::Identity(p@),
            WalkRequest::Location(p) => RequestView::Location(p@),
            WalkRequest::Open(p) => RequestView::Open(p@),
            WalkRequest::NextEntry(p) => RequestView::NextEntry(p@),
            WalkRequest::Nothing => RequestView::Nothing,
        }
    }
}

/// What a walk in this state needs to know next.
pub open spec fn requested(cfg: ScanConfig, st: WalkState) -> RequestView {
    match st.stage {
        StageView::Failed { root } => RequestView::Nothing,
        StageView::Identify { dir, depth } => RequestView::Identity(dir),
        StageView::Locate { dir } => RequestView::Location(dir),
        StageView::Open { dir, depth } => RequestView::Open(dir),
        StageView::Reading => if st.frames.len() > 0 {
            RequestView::NextEntry(st.frames.last().dir)
        } else if st.next_root < cfg.roots@.len() {
            RequestView::Root(cfg.roots@[st.next_root as int]@)
        } else {
            RequestView::Nothing
        },
    }
}

/// The contents of a stack of directories.
spec fn frame_views(v: Seq<Frame>) -> Seq<FrameView> {
    v.map_values(|f: Frame| f@)
}

/// A walk over the roots of a scan.
pub struct Walker {
    cfg: ScanConfig,
    next_root: usize,
    stage: Stage,
    frames: Vec<Frame>,
    visited: IdentitySet,
    files: Vec<FileEntry>,
    events: Vec<OwnedWalkEvent>,
    tally: ExclusionTally,
}

impl View for Walker {
    type V = WalkState;

    closed spec fn view(&self) -> WalkState {
        WalkState {
            next_root: self.next_root as nat,
            stage: self.stage@,
            frames: frame_views(self.frames@),
            log: WalkLog {
                visited: self.visited@,
                files: entry_views(self.files@),
                events: event_views(self.events@),
                tally: self.tally,
            },
        }
    }
}

/// The state before anything was looked up.
pub open spec fn start_state() -> WalkState {
    WalkState {
        next_root: 0,
        stage: StageView::Reading,
        frames: Seq::empty(),
        log: start_log(),
    }
}

/// The log before anything was looked up.
pub open spec fn start_log() -> WalkLog {
    WalkLog {
        visited: Set::empty(),
        files: Seq::empty(),
        events: Seq::empty(),
        tally: ExclusionTally { files: 0, bytes: 0 },
    }
}

/// Why a walk came to nothing.
#[derive(Debug)]
pub enum WalkError {
    /// A root does not exist, or cannot be looked up.
    PathNotFound(String),
}

impl Walker {
    /// The settings of the walk.
    pub closed spec fn config(self) -> ScanConfig {
        self.cfg
    }

    /// A walk over the roots of `cfg`.
    pub fn new(cfg: ScanConfig) -> (r: Self)
        ensures
            r.config() == cfg,
            r@ == start_state(),
    {
        let r = Walker {
            cfg,
            next_root: 0,
            stage: Stage::Reading,
            frames: Vec::new(),
            visited: IdentitySet::new(),
            files: Vec::new(),
            events: Vec::new(),
            tally: ExclusionTally { files: 0, bytes: 0 },
        };
        proof {
            assert(frame_views(r.frames@) =~= Seq::<FrameView>::empty());
            assert(entry_views(r.files@) =~= Seq::<FileEntryView>::empty());
            assert(event_views(r.events@) =~= Seq::<WalkEventView>::empty());
        }
        r
    }

    /// What to look up next.
    pub fn request(&self) -> (r: WalkRequest<'_>)
        ensures
            r@ == requested(self.config(), self@),
    {
        match &self.stage {
            Stage::Failed { root } => WalkRequest::Nothing,
            Stage::Identify { dir, depth } => WalkRequest::Identity(dir.as_str()),
            Stage::Locate { dir } => WalkRequest::Location(dir.as_str()),
            Stage::Open { dir, depth } => WalkRequest::Open(dir.as_str()),
            Stage::Reading => {
                if self.frames.len() > 0 {
                    WalkRequest::NextEntry(self.frames[self.frames.len() - 1].dir.as_str())
                } else if self.next_root < self.cfg.roots.len() {
                    WalkRequest::Root(self.cfg.roots[self.next_root].as_str())
                } else {
                    WalkRequest::Nothing
                }
            },
        }
    }

    fn tell(&mut self, event: OwnedWalkEvent)
        ensures
            final(self)@ == (WalkState { log: with_event(old(self)@.log, event@), ..old(self)@ }),
            final(self).config() == old(self).config(),
    {
        let ghost told = event@;
        self.events.push(event);
        assert(event_views(self.events@) =~= event_views(old(self).events@).push(told));
    }

    fn enter(&mut self, dir: String, depth: u32)
        ensures
            final(self)@ == entering(old(self).config(), old(self)@, dir@, depth),
            final(self).config() == old(self).config(),
    {
        if self.cfg.follow_links {
            self.stage = Stage::Identify { dir, depth };
        } else {
            self.tell(OwnedWalkEvent::Entered { path: dir.clone(), depth });
            self.stage = Stage::Open { dir, depth };
        }
    }

    fn note(&mut self, path: String, outcome: EntryOutcome) -> (child: Option<String>)
        ensures
            final(self)@ == (WalkState {
                log: WalkLog {
                    files: old(self)@.log.files + outcome_files(outcome@),
                    events: old(self)@.log.events + outcome_events(path@, outcome@),
                    ..old(self)@.log
                },
                ..old(self)@
            }),
            final(self).config() == old(self).config(),
            optional_text(child) == (if outcome@ is Descend {
                Some(path@)
            } else {
                None
            }),
    {
        let ghost out = outcome@;
        let ghost at = path@;
        match outcome {
            EntryOutcome::Skip(reason) => {
                self.tell(OwnedWalkEvent::EntrySkipped { path, reason });
                proof {
                    assert(self@.log.events =~= old(self)@.log.events + outcome_events(at, out));
                    assert(self@.log.files =~= old(self)@.log.files + outcome_files(out));
                }
                None
            },
            EntryOutcome::Descend => {
                proof {
                    assert(self@.log.events =~= old(self)@.log.events + outcome_events(at, out));
                    assert(self@.log.files =~= old(self)@.log.files + outcome_files(out));
                }
                Some(path)
            },
            EntryOutcome::Take(file) => {
                self.tell(OwnedWalkEvent::FileFound { path, size: file.size });
                let ghost before = self.files@;
                let ghost taken = file@;
                self.files.push(file);
                proof {
                    assert(entry_views(self.files@) =~= entry_views(before) + seq![taken]);
                    assert(self@.log.events =~= old(self)@.log.events + outcome_events(at, out));
                }
                None
            },
        }
    }

    /// Takes what was found out about the root that was asked for, and what the path rules say
    /// of it. A root that is a file is taken or left out like any other file; one that does not
    /// exist ends the walk.
    pub fn answer_root(&mut self, facts: RootFacts, verdicts: PathVerdicts)
        ensures
            final(self)@ == after_root(old(self).config(), old(self)@, facts, verdicts),
            final(self).config() == old(self).config(),
    {
        match &self.stage {
            Stage::Reading => {},
            _ => {
                return;
            },
        }
        if self.frames.len() > 0 || self.next_root >= self.cfg.roots.len() {
            return;
        }
        let root = self.cfg.roots[self.next_root].clone();
        match facts {
            RootFacts::Missing => {
                self.tell(
                    OwnedWalkEvent::DirError {
                        path: root.clone(),
                        message: "path not found".to_owned(),
                    },
                );
                self.stage = Stage::Failed { root };
            },
            RootFacts::Unreadable(message) => {
                let mut text = "metadata failed: ".to_owned();
                text.append(message.as_str());
                self.tell(OwnedWalkEvent::DirError { path: root.clone(), message: text });
                self.stage = Stage::Failed { root };
            },
            RootFacts::Found(f) => {
                self.next_root = self.next_root + 1;
                match f.kind {
                    FileKind::File => {
                        let mut tally = self.tally;
                        let outcome = if is_superdeduper_self_path(
                            self.cfg.platform,
                            root.as_str(),
                        ) {
                            EntryOutcome::Skip("superdeduper self-footprint")
                        } else {
                            match filter_file(&self.cfg, f.size, &verdicts, &mut tally) {
                                Some(reason) => EntryOutcome::Skip(reason),
                                None => EntryOutcome::Take(
                                    entry_from(self.cfg.platform, root.as_str(), &f),
                                ),
                            }
                        };
                        self.tally = tally;
                        let child = self.note(root, outcome);
                    },
                    _ => {
                        let dir = match self.cfg.platform {
                            Platform::Windows => to_verbatim(root.as_str()),
                            Platform::Unix => root,
                        };
                        self.enter(dir, 0);
                    },
                }
            },
        }
    }

    /// Takes the identity of the directory that was asked for.
    pub fn answer_identity(&mut self, identity: Option<DirIdentity>)
        ensures
            final(self)@ == after_identity(old(self)@, identity),
            final(self).config() == old(self).config(),
    {
        let (dir, depth): (String, u32) = match &self.stage {
            Stage::Identify { dir, depth } => (dir.clone(), *depth),
            _ => {
                return;
            },
        };
        match identity {
            None => {
                self.tell(
                    OwnedWalkEvent::DirError {
                        path: dir,
                        message: "identity unavailable".to_owned(),
                    },
                );
                self.stage = Stage::Reading;
            },
            Some(id) => {
                if self.visited.insert(id.volume_serial, id.file_id) {
                    self.tell(OwnedWalkEvent::Entered { path: dir.clone(), depth });
                    self.stage = Stage::Open { dir, depth };
                } else {
                    proof {
                        assert(self.visited@ =~= old(self).visited@);
                    }
                    self.stage = Stage::Locate { dir };
                }
            },
        }
    }

    /// Takes the real path of the directory that was asked for, where it is known.
    pub fn answer_location(&mut self, canonical: Option<String>)
        ensures
            final(self)@ == after_location(old(self)@, optional_text(canonical)),
            final(self).config() == old(self).config(),
    {
        let dir: String = match &self.stage {
            Stage::Locate { dir } => dir.clone(),
            _ => {
                return;
            },
        };
        let target: String = match canonical {
            Some(t) => t,
            None => dir.clone(),
        };
        self.tell(OwnedWalkEvent::SymlinkCycleSkipped { from: dir, target });
        self.stage = Stage::Reading;
    }

    /// Takes what came of opening the directory that was asked for.
    pub fn answer_open(&mut self, outcome: OpenOutcome)
        ensures
            final(self)@ == after_open(old(self)@, outcome),
            final(self).config() == old(self).config(),
    {
        let (dir, depth): (String, u32) = match &self.stage {
            Stage::Open { dir, depth } => (dir.clone(), *depth),
            _ => {
                return;
            },
        };
        match outcome {
            OpenOutcome::PermissionDenied => {
                self.tell(
                    OwnedWalkEvent::DirError { path: dir, message: "permission denied".to_owned() },
                );
            },
            OpenOutcome::NotFound => {},
            OpenOutcome::Failed(message) => {
                self.tell(OwnedWalkEvent::DirError { path: dir, message });
            },
            OpenOutcome::Opened(volume) => {
                let frame = Frame { dir, depth, volume };
                let ghost top = frame@;
                self.frames.push(frame);
                assert(frame_views(self.frames@) =~= frame_views(old(self).frames@).push(top));
            },
        }
        self.stage = Stage::Reading;
    }

    /// Takes the next entry of the innermost directory, or its end.
    pub fn answer_entry(&mut self, entry: Option<WalkEntry>)
        ensures
            final(self)@ == after_entry(old(self).config(), old(self)@, entry),
            final(self).config() == old(self).config(),
    {
        match &self.stage {
            Stage::Reading => {},
            _ => {
                return;
            },
        }
        if self.frames.len() == 0 {
            return;
        }
        let top: usize = self.frames.len() - 1;
        proof {
            assert(frame_views(self.frames@).last() == self.frames@[top as int]@);
        }
        match entry {
            None => {
                let last = self.frames.pop();
                assert(frame_views(self.frames@) =~= frame_views(old(self).frames@).drop_last());
            },
            Some(WalkEntry::Failed(message)) => {
                let mut text = "entry error: ".to_owned();
                text.append(message.as_str());
                let dir = self.frames[top].dir.clone();
                self.tell(OwnedWalkEvent::DirError { path: dir, message: text });
            },
            Some(WalkEntry::Entry(e)) => {
                let depth: u32 = self.frames[top].depth;
                let mut tally = self.tally;
                let outcome = judge_entry(&self.cfg, &e, &mut tally);
                self.tally = tally;
                match self.note(e.path, outcome) {
                    Some(dir) => self.enter(dir, depth.wrapping_add(1)),
                    None => {},
                }
            },
            Some(WalkEntry::Batch(b)) => {
                let depth: u32 = self.frames[top].depth;
                let path = path_push(
                    self.cfg.platform,
                    self.frames[top].dir.as_str(),
                    b.name.as_str(),
                );
                let mut tally = self.tally;
                let outcome = judge_batch_entry(
                    &self.cfg,
                    path.as_str(),
                    &b,
                    &self.frames[top].volume,
                    &mut tally,
                );
                self.tally = tally;
                match self.note(path, outcome) {
                    Some(dir) => self.enter(dir, depth.wrapping_add(1)),
                    None => {},
                }
            },
        }
    }

    /// Ends the walk early. What was gathered stays.
    pub fn cancel(&mut self)
        ensures
            final(self)@ == cancelled(old(self).config(), old(self)@),
            final(self).config() == old(self).config(),
    {
        match &self.stage {
            Stage::Failed { root } => {
                return;
            },
            _ => {},
        }
        self.stage = Stage::Reading;
        self.frames = Vec::new();
        self.next_root = self.cfg.roots.len();
        assert(frame_views(self.frames@) =~= Seq::<FrameView>::empty());
    }

    /// Hands out what happened since this was called last.
    pub fn take_events(&mut self) -> (r: Vec<OwnedWalkEvent>)
        ensures
            event_views(r@) == old(self)@.log.events,
            final(self)@ == (WalkState {
                log: WalkLog { events: Seq::empty(), ..old(self)@.log },
                ..old(self)@
            }),
            final(self).config() == old(self).config(),
    {
        let mut taken: Vec<OwnedWalkEvent> = Vec::new();
        std::mem::swap(&mut taken, &mut self.events);
        assert(event_views(self.events@) =~= Seq::<WalkEventView>::empty());
        taken
    }

    /// Ends the walk and hands out its files, each path once, or the root that does not exist.
    /// Behind it come what happened since the events were taken last, and the exclusion count.
    pub fn finish(self) -> (r: (Result<Vec<FileEntry>, WalkError>, Vec<OwnedWalkEvent>, ExclusionTally))
        ensures
            ({
                let log = self@.log;
                let platform = self.config().platform;
                &&& r.2 == log.tally
                &&& match self@.stage {
                    StageView::Failed { root } => {
                        &&& r.0 matches Err(WalkError::PathNotFound(p)) && p@ == root
                        &&& event_views(r.1@) == log.events
                    },
                    _ => {
                        &&& r.0 matches Ok(files) && entry_views(files@) == deduped(platform, log.files)
                        &&& event_views(r.1@) == log.events + duplicate_events(platform, log.files)
                    },
                }
            }),
    {
        let mut events = self.events;
        match self.stage {
            Stage::Failed { root } => (Err(WalkError::PathNotFound(root)), events, self.tally),
            _ => {
                let files = dedup_by_path(self.cfg.platform, self.files, &mut events);
                (Ok(files), events, self.tally)
            },
        }
    }
}

/// The state after the walk was cancelled.
pub open spec fn cancelled(cfg: ScanConfig, st: WalkState) -> WalkState {
    if st.stage is Failed {
        st
    } else {
        WalkState {
            next_root: cfg.roots@.len(),
            stage: StageView::Reading,
            frames: Seq::empty(),
            log: st.log,
        }
    }
}

/// A directory as it was recorded, with everything below it.
pub struct DirTree {
    /// Its identity, where it could be found out.
    pub identity: Option<DirIdentity>,
    /// Its real path, where it could be found out.
    pub canonical: Option<String>,
    /// What came of opening it.
    pub open: OpenOutcome,
    /// What reading it gave.
    pub entries: Vec<TreeEntry>,
}

/// One entry of a recorded directory.
pub struct TreeEntry {
    pub entry: WalkEntry,
    /// The directory that the entry leads to, where it leads to one that was recorded.
    pub below: Option<Box<DirTree>>,
}

/// One recorded root.
pub struct RootTree {
    pub facts: RootFacts,
    /// What the path rules say of the root.
    pub verdicts: PathVerdicts,
    /// The directory that the root is, where it is one that was recorded.
    pub tree: Option<DirTree>,
}

/// The log after a directory and everything below it was walked.
pub open spec fn walk_dir(
    cfg: ScanConfig,
    dir: Seq<char>,
    depth: u32,
    tree: DirTree,
    log: WalkLog,
) -> WalkLog
    decreases tree, 1int,
{
    if cfg.follow_links {
        match tree.identity {
            None => with_event(
                log,
                WalkEventView::DirError { path: dir, message: "identity unavailable"@ },
            ),
            Some(id) => {
                let key = (id.volume_serial, id.file_id);
                if log.visited.contains(key) {
                    with_event(
                        log,
                        WalkEventView::SymlinkCycleSkipped {
                            from: dir,
                            target: cycle_target(dir, optional_text(tree.canonical)),
                        },
                    )
                } else {
                    read_dir(
                        cfg,
                        dir,
                        depth,
                        tree,
                        with_event(
                            WalkLog { visited: log.visited.insert(key), ..log },
                            WalkEventView::Entered { path: dir, depth },
                        ),
                    )
                }
            },
        }
    } else {
        read_dir(cfg, dir, depth, tree, with_event(log, WalkEventView::Entered { path: dir, depth }))
    }
}

/// The log after a directory that was entered was opened and read to its end.
pub open spec fn read_dir(
    cfg: ScanConfig,
    dir: Seq<char>,
    depth: u32,
    tree: DirTree,
    log: WalkLog,
) -> WalkLog
    decreases tree, 0int,
{
    match tree.open {
        OpenOutcome::PermissionDenied => with_event(
            log,
            WalkEventView::DirError { path: dir, message: "permission denied"@ },
        ),
        OpenOutcome::NotFound => log,
        OpenOutcome::Failed(message) => with_event(
            log,
            WalkEventView::DirError { path: dir, message: message@ },
        ),
        OpenOutcome::Opened(volume) => walk_entries(
            cfg,
            FrameView { dir, depth, volume: optional_text(volume) },
            tree.entries@,
            log,
        ),
    }
}

/// The log after these entries of a directory, each with everything below it.
pub open spec fn walk_entries(
    cfg: ScanConfig,
    frame: FrameView,
    entries: Seq<TreeEntry>,
    log: WalkLog,
) -> WalkLog
    decreases entries, 2int,
{
    if entries.len() == 0 {
        log
    } else {
        let e = entries[0];
        let told = log_after_entry(cfg, log, frame, e.entry);
        let next = match child_of(cfg, frame, e.entry) {
            Some(dir) => match e.below {
                Some(tree) => walk_dir(cfg, dir, deeper(frame.depth), *tree, told),
                None => walk_absent(cfg, dir, deeper(frame.depth), told),
            },
            None => told,
        };
        walk_entries(cfg, frame, entries.subrange(1, entries.len() as int), next)
    }
}

/// The log after a directory that is gone by the time it is turned to.
pub open spec fn walk_absent(cfg: ScanConfig, dir: Seq<char>, depth: u32, log: WalkLog) -> WalkLog {
    if cfg.follow_links {
        with_event(log, WalkEventView::DirError { path: dir, message: "identity unavailable"@ })
    } else {
        with_event(log, WalkEventView::Entered { path: dir, depth })
    }
}

/// Whether a directory is about to be entered.
pub open spec fn at_door(cfg: ScanConfig, st: WalkState, dir: Seq<char>, depth: u32) -> bool {
    st.stage == (if cfg.follow_links {
        StageView::Identify { dir, depth }
    } else {
        StageView::Open { dir, depth }
    })
}

/// The log after the directory at the door, and everything below it, was walked.
pub open spec fn log_past_door(
    cfg: ScanConfig,
    dir: Seq<char>,
    depth: u32,
    tree: Option<DirTree>,
    log: WalkLog,
) -> WalkLog {
    match tree {
        Some(t) => if cfg.follow_links {
            walk_dir(cfg, dir, depth, t, log)
        } else {
            read_dir(cfg, dir, depth, t, log)
        },
        None => if cfg.follow_links {
            walk_absent(cfg, dir, depth, log)
        } else {
            log
        },
    }
}

spec fn door_of(st: WalkState) -> (Seq<char>, u32) {
    match st.stage {
        StageView::Identify { dir, depth } => (dir, depth),
        StageView::Open { dir, depth } => (dir, depth),
        _ => (Seq::empty(), 0),
    }
}

impl Walker {
    fn drive_absent(&mut self)
        requires
            at_door(old(self).config(), old(self)@, door_of(old(self)@).0, door_of(old(self)@).1),
        ensures
            final(self).config() == old(self).config(),
            final(self)@ == (WalkState {
                stage: StageView::Reading,
                log: log_past_door(
                    old(self).config(),
                    door_of(old(self)@).0,
                    door_of(old(self)@).1,
                    None,
                    old(self)@.log,
                ),
                ..old(self)@
            }),
    {
        if self.cfg.follow_links {
            self.answer_identity(None);
        } else {
            self.answer_open(OpenOutcome::NotFound);
        }
    }

    fn drive(&mut self, tree: DirTree)
        requires
            at_door(old(self).config(), old(self)@, door_of(old(self)@).0, door_of(old(self)@).1),
        ensures
            final(self).config() == old(self).config(),
            final(self)@ == (WalkState {
                stage: StageView::Reading,
                log: log_past_door(
                    old(self).config(),
                    door_of(old(self)@).0,
                    door_of(old(self)@).1,
                    Some(tree),
                    old(self)@.log,
                ),
                ..old(self)@
            }),
        decreases tree,
    {
        let ghost cfg = self.cfg;
        let ghost st = self@;
        let ghost dir = door_of(st).0;
        let ghost depth = door_of(st).1;
        let ghost whole = tree;
        if self.cfg.follow_links {
            self.answer_identity(tree.identity);
            let is_open: bool = match &self.stage {
                Stage::Open { dir, depth } => true,
                _ => false,
            };
            if !is_open {
                self.answer_location(tree.canonical);
                return;
            }
        }
        let opened: bool = match &tree.open {
            OpenOutcome::Opened(volume) => true,
            _ => false,
        };
        let ghost entered = self@;
        self.answer_open(tree.open);
        if !opened {
            return;
        }
        let ghost frame = self@.frames.last();
        let ghost log = self@.log;
        let ghost entries = tree.entries@;
        proof {
            assert(entries.subrange(0, entries.len() as int) =~= entries);
            assert(self@.frames.drop_last() =~= st.frames);
        }
        for e in it: tree.entries
            invariant
                it.seq() == entries,
                entries == whole.entries@,
                whole == tree,
                self.config() == cfg,
                self@.stage is Reading,
                self@.frames == st.frames.push(frame),
                self@.next_root == st.next_root,
                walk_entries(cfg, frame, entries, log) == walk_entries(
                    cfg,
                    frame,
                    entries.subrange(it.index() as int, entries.len() as int),
                    self@.log,
                ),
        {
            let ghost i = it.index() as int;
            let ghost rest = entries.subrange(i, entries.len() as int);
            let ghost here = self@;
            proof {
                assert(e == entries[i]);
                assert(rest[0] == e);
                assert(rest.subrange(1, rest.len() as int) =~= entries.subrange(
                    i + 1,
                    entries.len() as int,
                ));
                assert(here.frames.last() == frame);
            }
            let below = e.below;
            self.answer_entry(Some(e.entry));
            let descends: bool = match &self.stage {
                Stage::Reading => false,
                _ => true,
            };
            if descends {
                match below {
                    Some(t) => {
                        proof {
                            assert(decreases_to!(whole => whole.entries@[i].below));
                        }
                        self.drive(*t);
                    },
                    None => self.drive_absent(),
                }
            }
            proof {
                assert(self@.frames =~= st.frames.push(frame));
                let told = log_after_entry(cfg, here.log, frame, entries[i].entry);
                let next = match child_of(cfg, frame, entries[i].entry) {
                    Some(dir) => match entries[i].below {
                        Some(t) => walk_dir(cfg, dir, deeper(frame.depth), *t, told),
                        None => walk_absent(cfg, dir, deeper(frame.depth), told),
                    },
                    None => told,
                };
                assert(self@.log == next);
                assert(walk_entries(cfg, frame, rest, here.log) == walk_entries(
                    cfg,
                    frame,
                    rest.subrange(1, rest.len() as int),
                    next,
                ));
            }
        }
        proof {
            assert(entries.subrange(entries.len() as int, entries.len() as int) =~= Seq::<
                TreeEntry,
            >::empty());
        }
        self.answer_entry(None);
        proof {
            assert(self@.frames =~= st.frames);
        }
    }
}

/// The outcome of walking all roots from place `i` on: the log, and the root that does not
/// exist, if there is one. A root without a record counts as one that does not exist.
pub open spec fn walk_roots(cfg: ScanConfig, roots: Seq<RootTree>, i: nat, log: WalkLog) -> (
    WalkLog,
    Option<Seq<char>>,
)
    decreases cfg.roots@.len() - i,
{
    if i >= cfg.roots@.len() {
        (log, None)
    } else {
        let root = cfg.roots@[i as int]@;
        let missing = (
            with_event(log, WalkEventView::DirError { path: root, message: "path not found"@ }),
            Some(root),
        );
        if i >= roots.len() {
            missing
        } else {
            let r = roots[i as int];
            match r.facts {
                RootFacts::Missing => missing,
                RootFacts::Unreadable(message) => (
                    with_event(
                        log,
                        WalkEventView::DirError {
                            path: root,
                            message: "metadata failed: "@ + message@,
                        },
                    ),
                    Some(root),
                ),
                RootFacts::Found(f) => {
                    let next = if f.kind is File {
                        with_outcome(
                            cfg,
                            log,
                            root,
                            root_outcome(cfg, root, f, r.verdicts),
                            root_judged_size(cfg, root, f),
                            r.verdicts,
                        )
                    } else {
                        match r.tree {
                            Some(t) => walk_dir(cfg, walked_root(cfg.platform, root), 0, t, log),
                            None => walk_absent(cfg, walked_root(cfg.platform, root), 0, log),
                        }
                    };
                    walk_roots(cfg, roots, i + 1, next)
                },
            }
        }
    }
}

/// Walks recorded roots. The files come out each path once, and every event is appended to
/// `events` in order. A root that does not exist ends the walk with an error.
pub fn enumerate_with_progress(
    cfg: ScanConfig,
    roots: Vec<RootTree>,
    events: &mut Vec<OwnedWalkEvent>,
) -> (r: Result<Vec<FileEntry>, WalkError>)
    ensures
        ({
            let (log, failed) = walk_roots(cfg, roots@, 0, start_log());
            match failed {
                Some(root) => {
                    &&& r matches Err(WalkError::PathNotFound(p)) && p@ == root
                    &&& event_views(final(events)@) == event_views(old(events)@) + log.events
                },
                None => {
                    &&& r matches Ok(files) && entry_views(files@) == deduped(cfg.platform, log.files)
                    &&& event_views(final(events)@) == event_views(old(events)@) + log.events
                        + duplicate_events(cfg.platform, log.files)
                },
            }
        }),
{
    let ghost config = cfg;
    let ghost goal = walk_roots(cfg, roots@, 0, start_log());
    let ghost all = roots@;
    let count: usize = cfg.roots.len();
    let mut walker = Walker::new(cfg);
    let mut failed: bool = false;
    for root in it: roots
        invariant
            it.seq() == all,
            walker.config() == config,
            count == config.roots@.len(),
            !failed ==> {
                &&& walker@.stage is Reading
                &&& walker@.frames.len() == 0
                &&& walker@.next_root == (if it.index() < count { it.index() as nat } else { count as nat })
                &&& goal == walk_roots(config, all, walker@.next_root, walker@.log)
            },
            failed ==> (walker@.stage matches StageView::Failed { root: at } && goal == (
                walker@.log,
                Some(at),
            )),
    {
        let ghost i = it.index() as int;
        let ghost before = walker@;
        proof {
            assert(root == all[i]);
        }
        if !failed && walker.next_root < count {
            let tree = root.tree;
            let ghost kept_tree = tree;
            let ghost facts = root.facts;
            let ghost verdicts = root.verdicts;
            walker.answer_root(root.facts, root.verdicts);
            match &walker.stage {
                Stage::Failed { root: at } => {
                    failed = true;
                },
                Stage::Reading => {},
                _ => {
                    match tree {
                        Some(t) => walker.drive(t),
                        None => walker.drive_absent(),
                    }
                },
            }
            proof {
                let at = config.roots@[i]@;
                if let RootFacts::Found(f) = facts {
                    let next = if f.kind is File {
                        with_outcome(
                            config,
                            before.log,
                            at,
                            root_outcome(config, at, f, verdicts),
                            root_judged_size(config, at, f),
                            verdicts,
                        )
                    } else {
                        match kept_tree {
                            Some(t) => walk_dir(
                                config,
                                walked_root(config.platform, at),
                                0,
                                t,
                                before.log,
                            ),
                            None => walk_absent(
                                config,
                                walked_root(config.platform, at),
                                0,
                                before.log,
                            ),
                        }
                    };
                    assert(walker@.log == next);
                    assert(goal == walk_roots(config, all, (i + 1) as nat, next));
                }
            }
        }
    }
    if !failed && walker.next_root < count {
        walker.answer_root(
            RootFacts::Missing,
            PathVerdicts { excluded: false, include_match: None, exclude_match: None },
        );
    }
    let (result, mut told, tally) = walker.finish();
    let ghost last = told@;
    events.append(&mut told);
    assert(event_views(events@) =~= event_views(old(events)@) + event_views(last));
    proof {
        let (log, f) = goal;
        assert(event_views(old(events)@) + (log.events + duplicate_events(config.platform, log.files))
            =~= event_views(old(events)@) + log.events + duplicate_events(config.platform, log.files));
    }
    result
}

/// Walks recorded roots. The files come out each path once.
pub fn enumerate(cfg: ScanConfig, roots: Vec<RootTree>) -> (r: Result<Vec<FileEntry>, WalkError>)
    ensures
        ({
            let (log, failed) = walk_roots(cfg, roots@, 0, start_log());
            match failed {
                Some(root) => r matches Err(WalkError::PathNotFound(p)) && p@ == root,
                None => r matches Ok(files) && entry_views(files@) == deduped(cfg.platform, log.files),
            }
        }),
{
    let mut events: Vec<OwnedWalkEvent> = Vec::new();
    enumerate_with_progress(cfg, roots, &mut events)
}

/// Anything a walk can be told.
pub enum WalkAnswer {
    Root(RootFacts, PathVerdicts),
    Identity(Option<DirIdentity>),
    Location(Option<String>),
    Open(OpenOutcome),
    Entry(Option<WalkEntry>),
    Cancel,
}

/// The state after an answer.
pub open spec fn after(cfg: ScanConfig, st: WalkState, answer: WalkAnswer) -> WalkState {
    match answer {
        WalkAnswer::Root(facts, verdicts) => after_root(cfg, st, facts, verdicts),
        WalkAnswer::Identity(identity) => after_identity(st, identity),
        WalkAnswer::Location(canonical) => after_location(st, optional_text(canonical)),
        WalkAnswer::Open(outcome) => after_open(st, outcome),
        WalkAnswer::Entry(entry) => after_entry(cfg, st, entry),
        WalkAnswer::Cancel => cancelled(cfg, st),
    }
}

/// The state after a walk was told these answers.
pub open spec fn run(cfg: ScanConfig, answers: Seq<WalkAnswer>) -> WalkState
    decreases answers.len(),
{
    if answers.len() == 0 {
        start_state()
    } else {
        after(cfg, run(cfg, answers.drop_last()), answers.last())
    }
}

/// The files that the events tell of, in order.
pub open spec fn found(events: Seq<WalkEventView>) -> Seq<(Seq<char>, u64)>
    decreases events.len(),
{
    if events.len() == 0 {
        Seq::empty()
    } else {
        let init = found(events.drop_last());
        match events.last() {
            WalkEventView::FileFound { path, size } => init.push((path, size)),
            _ => init,
        }
    }
}

/// Path and size of each file.
pub open spec fn paths_and_sizes(files: Seq<FileEntryView>) -> Seq<(Seq<char>, u64)> {
    files.map_values(|f: FileEntryView| (f.path, f.size))
}

/// How many directories the events tell to be entered.
pub open spec fn entered_count(events: Seq<WalkEventView>) -> nat
    decreases events.len(),
{
    if events.len() == 0 {
        0
    } else {
        entered_count(events.drop_last()) + if events.last() is Entered {
            1nat
        } else {
            0nat
        }
    }
}

proof fn lemma_event(events: Seq<WalkEventView>, e: WalkEventView)
    ensures
        found(events.push(e)) == (match e {
            WalkEventView::FileFound { path, size } => found(events).push((path, size)),
            _ => found(events),
        }),
        entered_count(events.push(e)) == entered_count(events) + (if e is Entered {
            1nat
        } else {
            0nat
        }),
{
    assert(events.push(e).drop_last() =~= events);
}

/// What every state of a walk keeps.
spec fn kept(cfg: ScanConfig, log: WalkLog) -> bool {
    &&& found(log.events) == paths_and_sizes(log.files)
    &&& log.visited.finite()
    &&& cfg.follow_links ==> entered_count(log.events) == log.visited.len()
    &&& !cfg.follow_links ==> log.visited == Set::<(u64, u128)>::empty()
    &&& forall|k: int| 0 <= k < log.files.len() ==> size_in_range(cfg, (#[trigger] log.files[k]).size)
}

proof fn lemma_outcome_keeps(
    cfg: ScanConfig,
    log: WalkLog,
    path: Seq<char>,
    outcome: OutcomeView,
    size: Option<u64>,
    verdicts: PathVerdicts,
)
    requires
        kept(cfg, log),
        outcome matches OutcomeView::Take(e) ==> e.path == path && size_in_range(cfg, e.size),
    ensures
        kept(cfg, with_outcome(cfg, log, path, outcome, size, verdicts)),
{
    let after = with_outcome(cfg, log, path, outcome, size, verdicts);
    match outcome {
        OutcomeView::Skip(reason) => {
            let e = WalkEventView::EntrySkipped { path, reason };
            lemma_event(log.events, e);
            assert(after.events =~= log.events.push(e));
            assert(after.files =~= log.files);
        },
        OutcomeView::Descend => {
            assert(after.events =~= log.events);
            assert(after.files =~= log.files);
        },
        OutcomeView::Take(f) => {
            let e = WalkEventView::FileFound { path, size: f.size };
            lemma_event(log.events, e);
            assert(after.events =~= log.events.push(e));
            assert(after.files =~= log.files.push(f));
            assert(paths_and_sizes(after.files) =~= paths_and_sizes(log.files).push((path, f.size)));
        },
    }
}

/// The state keeps its promises, and where links are not followed no identity is asked for.
spec fn sound(cfg: ScanConfig, st: WalkState) -> bool {
    &&& kept(cfg, st.log)
    &&& st.stage is Identify ==> cfg.follow_links
}

proof fn lemma_entering_keeps(cfg: ScanConfig, st: WalkState, dir: Seq<char>, depth: u32)
    requires
        kept(cfg, st.log),
    ensures
        sound(cfg, entering(cfg, st, dir, depth)),
{
    lemma_event(st.log.events, WalkEventView::Entered { path: dir, depth });
}

proof fn lemma_answer_keeps(cfg: ScanConfig, st: WalkState, answer: WalkAnswer)
    requires
        sound(cfg, st),
    ensures
        sound(cfg, after(cfg, st, answer)),
        st.log.visited.subset_of(after(cfg, st, answer).log.visited),
{
    match answer {
        WalkAnswer::Root(facts, verdicts) => {
            let root = cfg.roots@[st.next_root as int]@;
            if requested(cfg, st) is Root {
                match facts {
                    RootFacts::Missing => lemma_event(
                        st.log.events,
                        WalkEventView::DirError { path: root, message: "path not found"@ },
                    ),
                    RootFacts::Unreadable(message) => lemma_event(
                        st.log.events,
                        WalkEventView::DirError {
                            path: root,
                            message: "metadata failed: "@ + message@,
                        },
                    ),
                    RootFacts::Found(f) => if f.kind is File {
                        lemma_outcome_keeps(
                            cfg,
                            st.log,
                            root,
                            root_outcome(cfg, root, f, verdicts),
                            root_judged_size(cfg, root, f),
                            verdicts,
                        );
                    } else {
                        lemma_entering_keeps(
                            cfg,
                            WalkState { next_root: st.next_root + 1, ..st },
                            walked_root(cfg.platform, root),
                            0,
                        );
                    },
                }
            }
        },
        WalkAnswer::Identity(identity) => match st.stage {
            StageView::Identify { dir, depth } => match identity {
                None => lemma_event(
                    st.log.events,
                    WalkEventView::DirError { path: dir, message: "identity unavailable"@ },
                ),
                Some(id) => {
                    lemma_event(st.log.events, WalkEventView::Entered { path: dir, depth });
                },
            },
            _ => {},
        },
        WalkAnswer::Location(canonical) => match st.stage {
            StageView::Locate { dir } => lemma_event(
                st.log.events,
                WalkEventView::SymlinkCycleSkipped {
                    from: dir,
                    target: cycle_target(dir, optional_text(canonical)),
                },
            ),
            _ => {},
        },
        WalkAnswer::Open(outcome) => match st.stage {
            StageView::Open { dir, depth } => match outcome {
                OpenOutcome::PermissionDenied => lemma_event(
                    st.log.events,
                    WalkEventView::DirError { path: dir, message: "permission denied"@ },
                ),
                OpenOutcome::Failed(message) => lemma_event(
                    st.log.events,
                    WalkEventView::DirError { path: dir, message: message@ },
                ),
                _ => {},
            },
            _ => {},
        },
        WalkAnswer::Entry(entry) => if requested(cfg, st) is NextEntry {
            match entry {
                None => {},
                Some(e) => {
                    let frame = st.frames.last();
                    let next = WalkState { log: log_after_entry(cfg, st.log, frame, e), ..st };
                    match e {
                        WalkEntry::Failed(message) => lemma_event(
                            st.log.events,
                            WalkEventView::DirError {
                                path: frame.dir,
                                message: "entry error: "@ + message@,
                            },
                        ),
                        WalkEntry::Entry(x) => lemma_outcome_keeps(
                            cfg,
                            st.log,
                            x.path@,
                            entry_outcome(cfg, x.path@, x.own, x.target, x.verdicts),
                            judged_size(cfg, x.path@, x.own, x.target),
                            x.verdicts,
                        ),
                        WalkEntry::Batch(b) => {
                            let path = pushed(cfg.platform, frame.dir, b.name@);
                            lemma_outcome_keeps(
                                cfg,
                                st.log,
                                path,
                                batch_outcome(cfg, path, b, frame.volume),
                                batch_judged_size(cfg, path, b),
                                b.verdicts,
                            );
                        },
                    }
                    match child_of(cfg, frame, e) {
                        Some(dir) => lemma_entering_keeps(cfg, next, dir, deeper(frame.depth)),
                        None => {},
                    }
                },
            }
        },
        WalkAnswer::Cancel => {},
    }
}

proof fn lemma_run_is_sound(cfg: ScanConfig, answers: Seq<WalkAnswer>)
    ensures
        sound(cfg, run(cfg, answers)),
    decreases answers.len(),
{
    if answers.len() == 0 {
        assert(paths_and_sizes(start_log().files) =~= found(start_log().events));
    } else {
        lemma_run_is_sound(cfg, answers.drop_last());
        lemma_answer_keeps(cfg, run(cfg, answers.drop_last()), answers.last());
    }
}

/// Whatever the disk answers, the files that are told are the files that are taken, in order.
pub proof fn files_taken_are_files_told(cfg: ScanConfig, answers: Seq<WalkAnswer>)
    ensures
        found(run(cfg, answers).log.events) == paths_and_sizes(run(cfg, answers).log.files),
{
    lemma_run_is_sound(cfg, answers);
}

/// Whatever the disk answers, every file taken lies within the size limits.
pub proof fn files_taken_are_in_range(cfg: ScanConfig, answers: Seq<WalkAnswer>)
    ensures
        forall|k: int|
            0 <= k < run(cfg, answers).log.files.len() ==> size_in_range(
                cfg,
                (#[trigger] run(cfg, answers).log.files[k]).size,
            ),
{
    lemma_run_is_sound(cfg, answers);
}

/// Where links are followed, no physical directory is entered twice: as many directories are
/// entered as identities were met. Where they are not, no identity is ever kept.
pub proof fn no_directory_is_entered_twice(cfg: ScanConfig, answers: Seq<WalkAnswer>)
    ensures
        run(cfg, answers).log.visited.finite(),
        cfg.follow_links ==> entered_count(run(cfg, answers).log.events) == run(
            cfg,
            answers,
        ).log.visited.len(),
        !cfg.follow_links ==> run(cfg, answers).log.visited == Set::<(u64, u128)>::empty(),
{
    lemma_run_is_sound(cfg, answers);
}

/// The identity of a directory that was entered is never forgotten, whatever the disk answers
/// next.
pub proof fn entered_directories_stay_entered(cfg: ScanConfig, answers: Seq<WalkAnswer>, next: WalkAnswer)
    ensures
        run(cfg, answers).log.visited.subset_of(run(cfg, answers.push(next)).log.visited),
{
    lemma_run_is_sound(cfg, answers);
    lemma_answer_keeps(cfg, run(cfg, answers), next);
    assert(answers.push(next).drop_last() =~= answers);
}

/// A cancelled walk is over, keeps the files it has, and stays as it is whatever it is told.
pub proof fn cancelled_walks_are_over(cfg: ScanConfig, st: WalkState, next: WalkAnswer)
    ensures
        requested(cfg, cancelled(cfg, st)) is Nothing,
        cancelled(cfg, st).log == st.log,
        after(cfg, cancelled(cfg, st), next).log == st.log,
{
}

/// Whether a file belongs in the inventory, where `rules` gives the verdicts on each path: its
/// size lies within the limits, the patterns pass, no exclusion rule names it, and it is not one
/// of superdeduper's own.
pub open spec fn is_admitted(
    cfg: ScanConfig,
    rules: spec_fn(Seq<char>) -> PathVerdicts,
    file: FileEntryView,
) -> bool {
    &&& size_in_range(cfg, file.size)
    &&& passes_globs(rules(file.path))
    &&& !is_excluded(cfg, rules(file.path))
    &&& !is_own_footprint(cfg.platform, file.path)
}

/// Whether every file belongs in the inventory.
pub open spec fn all_admitted(
    cfg: ScanConfig,
    rules: spec_fn(Seq<char>) -> PathVerdicts,
    files: Seq<FileEntryView>,
) -> bool {
    forall|k: int| 0 <= k < files.len() ==> is_admitted(cfg, rules, #[trigger] files[k])
}

/// The path of an entry of a directory.
pub open spec fn entry_path(platform: Platform, dir: Seq<char>, entry: WalkEntry) -> Seq<char> {
    match entry {
        WalkEntry::Failed(_) => dir,
        WalkEntry::Entry(e) => e.path@,
        WalkEntry::Batch(b) => pushed(platform, dir, b.name@),
    }
}

/// Whether the verdicts on an entry are those that the rules give on its path.
pub open spec fn entry_is_judged(
    platform: Platform,
    dir: Seq<char>,
    entry: WalkEntry,
    rules: spec_fn(Seq<char>) -> PathVerdicts,
) -> bool {
    match entry {
        WalkEntry::Failed(_) => true,
        WalkEntry::Entry(e) => e.verdicts == rules(entry_path(platform, dir, entry)),
        WalkEntry::Batch(b) => b.verdicts == rules(entry_path(platform, dir, entry)),
    }
}

/// Whether all verdicts in a recorded directory are those that the rules give.
pub open spec fn tree_is_judged(
    platform: Platform,
    dir: Seq<char>,
    tree: DirTree,
    rules: spec_fn(Seq<char>) -> PathVerdicts,
) -> bool
    decreases tree, 0int,
{
    entries_are_judged(platform, dir, tree.entries@, rules)
}

/// Whether all verdicts on these entries, and in what lies below them, are those that the rules
/// give.
pub open spec fn entries_are_judged(
    platform: Platform,
    dir: Seq<char>,
    entries: Seq<TreeEntry>,
    rules: spec_fn(Seq<char>) -> PathVerdicts,
) -> bool
    decreases entries, 2int,
{
    if entries.len() == 0 {
        true
    } else {
        let e = entries[0];
        &&& entry_is_judged(platform, dir, e.entry, rules)
        &&& match e.below {
            Some(tree) => tree_is_judged(
                platform,
                entry_path(platform, dir, e.entry),
                *tree,
                rules,
            ),
            None => true,
        }
        &&& entries_are_judged(
            platform,
            dir,
            entries.subrange(1, entries.len() as int),
            rules,
        )
    }
}

/// Whether all verdicts on recorded roots, and in what lies below them, are those that the rules
/// give.
pub open spec fn roots_are_judged(
    cfg: ScanConfig,
    roots: Seq<RootTree>,
    rules: spec_fn(Seq<char>) -> PathVerdicts,
) -> bool {
    forall|i: int|
        0 <= i < roots.len() && i < cfg.roots@.len() ==> {
            let root = cfg.roots@[i]@;
            &&& (#[trigger] roots[i]).verdicts == rules(root)
            &&& match roots[i].tree {
                Some(tree) => tree_is_judged(
                    cfg.platform,
                    walked_root(cfg.platform, root),
                    tree,
                    rules,
                ),
                None => true,
            }
        }
}

proof fn lemma_plain_event_keeps(cfg: ScanConfig, log: WalkLog, e: WalkEventView)
    requires
        kept(cfg, log),
        !(e is FileFound),
        !(e is Entered),
    ensures
        kept(cfg, with_event(log, e)),
{
    lemma_event(log.events, e);
}

proof fn lemma_outcome_admits(
    cfg: ScanConfig,
    log: WalkLog,
    path: Seq<char>,
    outcome: OutcomeView,
    size: Option<u64>,
    verdicts: PathVerdicts,
    rules: spec_fn(Seq<char>) -> PathVerdicts,
)
    requires
        all_admitted(cfg, rules, log.files),
        outcome matches OutcomeView::Take(e) ==> is_admitted(cfg, rules, e),
    ensures
        all_admitted(cfg, rules, with_outcome(cfg, log, path, outcome, size, verdicts).files),
{
}

proof fn lemma_entry_keeps(
    cfg: ScanConfig,
    log: WalkLog,
    frame: FrameView,
    entry: WalkEntry,
    rules: spec_fn(Seq<char>) -> PathVerdicts,
)
    requires
        kept(cfg, log),
    ensures
        kept(cfg, log_after_entry(cfg, log, frame, entry)),
        entry_is_judged(cfg.platform, frame.dir, entry, rules) && all_admitted(cfg, rules, log.files)
            ==> all_admitted(cfg, rules, log_after_entry(cfg, log, frame, entry).files),
{
    let judged = entry_is_judged(cfg.platform, frame.dir, entry, rules) && all_admitted(
        cfg,
        rules,
        log.files,
    );
    match entry {
        WalkEntry::Failed(message) => lemma_plain_event_keeps(
            cfg,
            log,
            WalkEventView::DirError { path: frame.dir, message: "entry error: "@ + message@ },
        ),
        WalkEntry::Entry(x) => {
            let outcome = entry_outcome(cfg, x.path@, x.own, x.target, x.verdicts);
            let size = judged_size(cfg, x.path@, x.own, x.target);
            lemma_outcome_keeps(cfg, log, x.path@, outcome, size, x.verdicts);
            if judged {
                lemma_outcome_admits(cfg, log, x.path@, outcome, size, x.verdicts, rules);
            }
        },
        WalkEntry::Batch(b) => {
            let path = pushed(cfg.platform, frame.dir, b.name@);
            let outcome = batch_outcome(cfg, path, b, frame.volume);
            let size = batch_judged_size(cfg, path, b);
            lemma_outcome_keeps(cfg, log, path, outcome, size, b.verdicts);
            if judged {
                lemma_outcome_admits(cfg, log, path, outcome, size, b.verdicts, rules);
            }
        },
    }
}

proof fn lemma_absent_keeps(cfg: ScanConfig, dir: Seq<char>, depth: u32, log: WalkLog)
    requires
        kept(cfg, log),
    ensures
        kept(cfg, walk_absent(cfg, dir, depth, log)),
        walk_absent(cfg, dir, depth, log).files == log.files,
{
    lemma_event(log.events, WalkEventView::Entered { path: dir, depth });
    lemma_event(
        log.events,
        WalkEventView::DirError { path: dir, message: "identity unavailable"@ },
    );
}

proof fn lemma_walk_dir_keeps(
    cfg: ScanConfig,
    dir: Seq<char>,
    depth: u32,
    tree: DirTree,
    log: WalkLog,
    rules: spec_fn(Seq<char>) -> PathVerdicts,
)
    requires
        kept(cfg, log),
    ensures
        kept(cfg, walk_dir(cfg, dir, depth, tree, log)),
        tree_is_judged(cfg.platform, dir, tree, rules) && all_admitted(cfg, rules, log.files)
            ==> all_admitted(cfg, rules, walk_dir(cfg, dir, depth, tree, log).files),
    decreases tree, 1int,
{
    let entered = WalkEventView::Entered { path: dir, depth };
    lemma_event(log.events, entered);
    if cfg.follow_links {
        match tree.identity {
            None => lemma_plain_event_keeps(
                cfg,
                log,
                WalkEventView::DirError { path: dir, message: "identity unavailable"@ },
            ),
            Some(id) => {
                let key = (id.volume_serial, id.file_id);
                if log.visited.contains(key) {
                    lemma_plain_event_keeps(
                        cfg,
                        log,
                        WalkEventView::SymlinkCycleSkipped {
                            from: dir,
                            target: cycle_target(dir, optional_text(tree.canonical)),
                        },
                    );
                } else {
                    lemma_read_dir_keeps(
                        cfg,
                        dir,
                        depth,
                        tree,
                        with_event(
                            WalkLog { visited: log.visited.insert(key), ..log },
                            entered,
                        ),
                        rules,
                    );
                }
            },
        }
    } else {
        lemma_read_dir_keeps(cfg, dir, depth, tree, with_event(log, entered), rules);
    }
}

proof fn lemma_read_dir_keeps(
    cfg: ScanConfig,
    dir: Seq<char>,
    depth: u32,
    tree: DirTree,
    log: WalkLog,
    rules: spec_fn(Seq<char>) -> PathVerdicts,
)
    requires
        kept(cfg, log),
    ensures
        kept(cfg, read_dir(cfg, dir, depth, tree, log)),
        tree_is_judged(cfg.platform, dir, tree, rules) && all_admitted(cfg, rules, log.files)
            ==> all_admitted(cfg, rules, read_dir(cfg, dir, depth, tree, log).files),
    decreases tree, 0int,
{
    match tree.open {
        OpenOutcome::PermissionDenied => lemma_plain_event_keeps(
            cfg,
            log,
            WalkEventView::DirError { path: dir, message: "permission denied"@ },
        ),
        OpenOutcome::NotFound => {},
        OpenOutcome::Failed(message) => lemma_plain_event_keeps(
            cfg,
            log,
            WalkEventView::DirError { path: dir, message: message@ },
        ),
        OpenOutcome::Opened(volume) => lemma_walk_entries_keeps(
            cfg,
            FrameView { dir, depth, volume: optional_text(volume) },
            tree.entries@,
            log,
            rules,
        ),
    }
}

proof fn lemma_walk_entries_keeps(
    cfg: ScanConfig,
    frame: FrameView,
    entries: Seq<TreeEntry>,
    log: WalkLog,
    rules: spec_fn(Seq<char>) -> PathVerdicts,
)
    requires
        kept(cfg, log),
    ensures
        kept(cfg, walk_entries(cfg, frame, entries, log)),
        entries_are_judged(cfg.platform, frame.dir, entries, rules) && all_admitted(
            cfg,
            rules,
            log.files,
        ) ==> all_admitted(cfg, rules, walk_entries(cfg, frame, entries, log).files),
    decreases entries, 2int,
{
    if entries.len() > 0 {
        let e = entries[0];
        let told = log_after_entry(cfg, log, frame, e.entry);
        lemma_entry_keeps(cfg, log, frame, e.entry, rules);
        let next = match child_of(cfg, frame, e.entry) {
            Some(dir) => match e.below {
                Some(tree) => walk_dir(cfg, dir, deeper(frame.depth), *tree, told),
                None => walk_absent(cfg, dir, deeper(frame.depth), told),
            },
            None => told,
        };
        match child_of(cfg, frame, e.entry) {
            Some(dir) => {
                assert(dir == entry_path(cfg.platform, frame.dir, e.entry));
                match e.below {
                    Some(tree) => lemma_walk_dir_keeps(
                        cfg,
                        dir,
                        deeper(frame.depth),
                        *tree,
                        told,
                        rules,
                    ),
                    None => lemma_absent_keeps(cfg, dir, deeper(frame.depth), told),
                }
            },
            None => {},
        }
        lemma_walk_entries_keeps(
            cfg,
            frame,
            entries.subrange(1, entries.len() as int),
            next,
            rules,
        );
    }
}

proof fn lemma_walk_roots_keeps(
    cfg: ScanConfig,
    roots: Seq<RootTree>,
    i: nat,
    log: WalkLog,
    rules: spec_fn(Seq<char>) -> PathVerdicts,
)
    requires
        kept(cfg, log),
    ensures
        kept(cfg, walk_roots(cfg, roots, i, log).0),
        roots_are_judged(cfg, roots, rules) && all_admitted(cfg, rules, log.files) ==> all_admitted(
            cfg,
            rules,
            walk_roots(cfg, roots, i, log).0.files,
        ),
    decreases cfg.roots@.len() - i,
{
    if i < cfg.roots@.len() {
        let root = cfg.roots@[i as int]@;
        lemma_plain_event_keeps(
            cfg,
            log,
            WalkEventView::DirError { path: root, message: "path not found"@ },
        );
        if i < roots.len() {
            let r = roots[i as int];
            match r.facts {
                RootFacts::Missing => {},
                RootFacts::Unreadable(message) => lemma_plain_event_keeps(
                    cfg,
                    log,
                    WalkEventView::DirError { path: root, message: "metadata failed: "@ + message@ },
                ),
                RootFacts::Found(f) => {
                    let dir = walked_root(cfg.platform, root);
                    let outcome = root_outcome(cfg, root, f, r.verdicts);
                    let size = root_judged_size(cfg, root, f);
                    let next = if f.kind is File {
                        with_outcome(cfg, log, root, outcome, size, r.verdicts)
                    } else {
                        match r.tree {
                            Some(t) => walk_dir(cfg, dir, 0, t, log),
                            None => walk_absent(cfg, dir, 0, log),
                        }
                    };
                    if f.kind is File {
                        lemma_outcome_keeps(cfg, log, root, outcome, size, r.verdicts);
                        if r.verdicts == rules(root) && all_admitted(cfg, rules, log.files) {
                            lemma_outcome_admits(cfg, log, root, outcome, size, r.verdicts, rules);
                        }
                    } else {
                        match r.tree {
                            Some(t) => lemma_walk_dir_keeps(cfg, dir, 0, t, log, rules),
                            None => lemma_absent_keeps(cfg, dir, 0, log),
                        }
                    }
                    lemma_walk_roots_keeps(cfg, roots, i + 1, next, rules);
                },
            }
        }
    }
}

/// The files that a walk of recorded roots tells of are the files that it takes, in order.
pub proof fn walked_files_are_files_told(cfg: ScanConfig, roots: Seq<RootTree>)
    ensures
        ({
            let log = walk_roots(cfg, roots, 0, start_log()).0;
            found(log.events) == paths_and_sizes(log.files)
        }),
{
    assert(paths_and_sizes(start_log().files) =~= found(start_log().events));
    lemma_walk_roots_keeps(cfg, roots, 0, start_log(), no_rules());
}

/// Where links are followed, a walk of recorded roots enters no physical directory twice: as many
/// directories are entered as identities were met. Where they are not, no identity is ever kept.
pub proof fn walked_roots_are_entered_once(cfg: ScanConfig, roots: Seq<RootTree>)
    ensures
        ({
            let log = walk_roots(cfg, roots, 0, start_log()).0;
            &&& log.visited.finite()
            &&& cfg.follow_links ==> entered_count(log.events) == log.visited.len()
            &&& !cfg.follow_links ==> log.visited == Set::<(u64, u128)>::empty()
        }),
{
    assert(paths_and_sizes(start_log().files) =~= found(start_log().events));
    lemma_walk_roots_keeps(cfg, roots, 0, start_log(), no_rules());
}

spec fn no_rules() -> spec_fn(Seq<char>) -> PathVerdicts {
    |path: Seq<char>| PathVerdicts { excluded: false, include_match: None, exclude_match: None }
}

/// Every file that a walk of recorded roots takes belongs in the inventory: its size lies within
/// the limits, its path passes the patterns and is not excluded, and it is not one of
/// superdeduper's own, whether it was found in a directory or is a root itself.
pub proof fn walked_files_are_admitted(
    cfg: ScanConfig,
    roots: Seq<RootTree>,
    rules: spec_fn(Seq<char>) -> PathVerdicts,
)
    requires
        roots_are_judged(cfg, roots, rules),
    ensures
        all_admitted(cfg, rules, walk_roots(cfg, roots, 0, start_log()).0.files),
{
    assert(paths_and_sizes(start_log().files) =~= found(start_log().events));
    lemma_walk_roots_keeps(cfg, roots, 0, start_log(), rules);
}

/// What an entry of a directory is and how large, seen through a link where links are followed.
/// `None` where that is not known, and for links that are not followed.
pub open spec fn thing_at(cfg: ScanConfig, entry: WalkEntry) -> Option<(FileKind, u64)> {
    match entry {
        WalkEntry::Failed(_) => None,
        WalkEntry::Entry(e) => match e.own {
            None => None,
            Some(own) => if own.kind != FileKind::Symlink {
                Some((own.kind, own.size))
            } else if !cfg.follow_links {
                None
            } else {
                match e.target {
                    Some(t) => Some((t.kind, t.size)),
                    None => None,
                }
            },
        },
        WalkEntry::Batch(b) => if b.attributes & 0x400 != 0 && b.reparse_tag == Some(0xA000_000Cu32) {
            if !cfg.follow_links {
                None
            } else {
                match b.target {
                    Some(t) => Some((t.kind, t.size)),
                    None => None,
                }
            }
        } else if b.is_dir {
            Some((FileKind::Directory, b.size))
        } else {
            Some((FileKind::File, b.size))
        },
    }
}

/// What the path rules say of an entry.
pub open spec fn said_of(entry: WalkEntry) -> PathVerdicts {
    match entry {
        WalkEntry::Failed(_) => PathVerdicts {
            excluded: false,
            include_match: None,
            exclude_match: None,
        },
        WalkEntry::Entry(e) => e.verdicts,
        WalkEntry::Batch(b) => b.verdicts,
    }
}

/// Whether a file with this path, in whichever spelling, is among the files.
pub open spec fn is_listed(platform: Platform, files: Seq<FileEntryView>, path: Seq<char>) -> bool {
    exists|k: int|
        0 <= k < files.len() && components(platform, (#[trigger] files[k]).path) == components(
            platform,
            path,
        )
}

/// Whether the events tell that the directory was met again under this path.
pub open spec fn is_told_met(events: Seq<WalkEventView>, dir: Seq<char>) -> bool {
    exists|k: int|
        0 <= k < events.len() && ((#[trigger] events[k]) matches WalkEventView::SymlinkCycleSkipped {
            from,
            ..
        } && from == dir)
}

/// Whether every wanted file below a recorded directory is among the files, however deep it lies
/// and whatever the path rules say of the directories above it. What cannot be opened holds none,
/// and where links are followed, neither does a directory without an identity or one that is told
/// to have been met before.
pub open spec fn dir_is_covered(
    cfg: ScanConfig,
    dir: Seq<char>,
    tree: DirTree,
    files: Seq<FileEntryView>,
    events: Seq<WalkEventView>,
) -> bool
    decreases tree, 0int,
{
    tree.open is Opened && (cfg.follow_links ==> tree.identity is Some && !is_told_met(events, dir))
        ==> entries_are_covered(cfg, dir, tree.entries@, files, events)
}

/// Whether every wanted file among these entries of a directory, and below them, is among the
/// files.
pub open spec fn entries_are_covered(
    cfg: ScanConfig,
    dir: Seq<char>,
    entries: Seq<TreeEntry>,
    files: Seq<FileEntryView>,
    events: Seq<WalkEventView>,
) -> bool
    decreases entries, 2int,
{
    if entries.len() == 0 {
        true
    } else {
        let e = entries[0];
        let path = entry_path(cfg.platform, dir, e.entry);
        &&& is_own_footprint(cfg.platform, path) || match (thing_at(cfg, e.entry), e.below) {
            (Some((FileKind::File, size)), _) => is_wanted(cfg, size, said_of(e.entry)) ==> is_listed(
                cfg.platform,
                files,
                path,
            ),
            (Some((FileKind::Directory, _)), Some(tree)) => dir_is_covered(
                cfg,
                path,
                *tree,
                files,
                events,
            ),
            _ => true,
        }
        &&& entries_are_covered(
            cfg,
            dir,
            entries.subrange(1, entries.len() as int),
            files,
            events,
        )
    }
}

/// Whether what was listed and told before still is.
spec fn goes_on(
    platform: Platform,
    f1: Seq<FileEntryView>,
    e1: Seq<WalkEventView>,
    f2: Seq<FileEntryView>,
    e2: Seq<WalkEventView>,
) -> bool {
    &&& forall|path: Seq<char>| is_listed(platform, f1, path) ==> #[trigger] is_listed(
        platform,
        f2,
        path,
    )
    &&& forall|dir: Seq<char>| is_told_met(e1, dir) ==> #[trigger] is_told_met(e2, dir)
}

proof fn lemma_longer_logs_go_on(platform: Platform, a: WalkLog, b: WalkLog)
    requires
        a.files.is_prefix_of(b.files),
        a.events.is_prefix_of(b.events),
    ensures
        goes_on(platform, a.files, a.events, b.files, b.events),
{
    assert forall|path: Seq<char>| is_listed(platform, a.files, path) implies #[trigger] is_listed(
        platform,
        b.files,
        path,
    ) by {
        let k = choose|k: int|
            0 <= k < a.files.len() && components(platform, (#[trigger] a.files[k]).path)
                == components(platform, path);
        assert(b.files[k] == a.files[k]);
    }
    assert forall|dir: Seq<char>| is_told_met(a.events, dir) implies #[trigger] is_told_met(
        b.events,
        dir,
    ) by {
        let k = choose|k: int|
            0 <= k < a.events.len() && ((#[trigger] a.events[k]) matches WalkEventView::SymlinkCycleSkipped {
                from,
                ..
            } && from == dir);
        assert(b.events[k] == a.events[k]);
    }
}

proof fn lemma_dir_stays_covered(
    cfg: ScanConfig,
    dir: Seq<char>,
    tree: DirTree,
    f1: Seq<FileEntryView>,
    e1: Seq<WalkEventView>,
    f2: Seq<FileEntryView>,
    e2: Seq<WalkEventView>,
)
    requires
        dir_is_covered(cfg, dir, tree, f1, e1),
        goes_on(cfg.platform, f1, e1, f2, e2),
    ensures
        dir_is_covered(cfg, dir, tree, f2, e2),
    decreases tree, 0int,
{
    if entries_are_covered(cfg, dir, tree.entries@, f1, e1) {
        lemma_entries_stay_covered(cfg, dir, tree.entries@, f1, e1, f2, e2);
    }
}

proof fn lemma_entries_stay_covered(
    cfg: ScanConfig,
    dir: Seq<char>,
    entries: Seq<TreeEntry>,
    f1: Seq<FileEntryView>,
    e1: Seq<WalkEventView>,
    f2: Seq<FileEntryView>,
    e2: Seq<WalkEventView>,
)
    requires
        entries_are_covered(cfg, dir, entries, f1, e1),
        goes_on(cfg.platform, f1, e1, f2, e2),
    ensures
        entries_are_covered(cfg, dir, entries, f2, e2),
    decreases entries, 2int,
{
    if entries.len() > 0 {
        let e = entries[0];
        let path = entry_path(cfg.platform, dir, e.entry);
        match e.below {
            Some(tree) => if dir_is_covered(cfg, path, *tree, f1, e1) {
                lemma_dir_stays_covered(cfg, path, *tree, f1, e1, f2, e2);
            },
            None => {},
        }
        lemma_entries_stay_covered(
            cfg,
            dir,
            entries.subrange(1, entries.len() as int),
            f1,
            e1,
            f2,
            e2,
        );
    }
}

proof fn lemma_prefix_is_transitive<T>(a: Seq<T>, b: Seq<T>, c: Seq<T>)
    requires
        a.is_prefix_of(b),
        b.is_prefix_of(c),
    ensures
        a.is_prefix_of(c),
{
    assert(a =~= c.subrange(0, a.len() as int)) by {
        assert forall|k: int| 0 <= k < a.len() implies a[k] == c[k] by {
            assert(b.subrange(0, a.len() as int)[k] == b[k]);
            assert(c.subrange(0, b.len() as int)[k] == c[k]);
        }
    }
}

spec fn grows(a: WalkLog, b: WalkLog) -> bool {
    a.files.is_prefix_of(b.files) && a.events.is_prefix_of(b.events)
}

proof fn lemma_grows_is_transitive(a: WalkLog, b: WalkLog, c: WalkLog)
    requires
        grows(a, b),
        grows(b, c),
    ensures
        grows(a, c),
{
    lemma_prefix_is_transitive(a.files, b.files, c.files);
    lemma_prefix_is_transitive(a.events, b.events, c.events);
}

proof fn lemma_entry_covers(cfg: ScanConfig, log: WalkLog, frame: FrameView, entry: WalkEntry)
    ensures
        ({
            let told = log_after_entry(cfg, log, frame, entry);
            let path = entry_path(cfg.platform, frame.dir, entry);
            &&& grows(log, told)
            &&& !is_own_footprint(cfg.platform, path) ==> match thing_at(cfg, entry) {
                Some((FileKind::File, size)) => is_wanted(cfg, size, said_of(entry)) ==> is_listed(
                    cfg.platform,
                    told.files,
                    path,
                ),
                Some((FileKind::Directory, _)) => child_of(cfg, frame, entry) == Some(path),
                _ => true,
            }
        }),
{
    let told = log_after_entry(cfg, log, frame, entry);
    let path = entry_path(cfg.platform, frame.dir, entry);
    assert(log.files =~= told.files.subrange(0, log.files.len() as int));
    assert(log.events =~= told.events.subrange(0, log.events.len() as int));
    if let Some((FileKind::File, size)) = thing_at(cfg, entry) {
        if !is_own_footprint(cfg.platform, path) && is_wanted(cfg, size, said_of(entry)) {
            assert(told.files.len() == log.files.len() + 1);
            assert(told.files[log.files.len() as int].path == path);
        }
    }
}

proof fn lemma_walk_dir_covers(
    cfg: ScanConfig,
    dir: Seq<char>,
    depth: u32,
    tree: DirTree,
    log: WalkLog,
)
    ensures
        ({
            let after = walk_dir(cfg, dir, depth, tree, log);
            grows(log, after) && dir_is_covered(cfg, dir, tree, after.files, after.events)
        }),
    decreases tree, 1int,
{
    let after = walk_dir(cfg, dir, depth, tree, log);
    let entered = WalkEventView::Entered { path: dir, depth };
    if cfg.follow_links {
        match tree.identity {
            None => {
                assert(log.events =~= after.events.subrange(0, log.events.len() as int));
                assert(log.files =~= after.files.subrange(0, log.files.len() as int));
            },
            Some(id) => {
                let key = (id.volume_serial, id.file_id);
                if log.visited.contains(key) {
                    assert(log.events =~= after.events.subrange(0, log.events.len() as int));
                    assert(log.files =~= after.files.subrange(0, log.files.len() as int));
                    assert(after.events[log.events.len() as int] is SymlinkCycleSkipped);
                    assert(is_told_met(after.events, dir));
                } else {
                    let next = with_event(
                        WalkLog { visited: log.visited.insert(key), ..log },
                        entered,
                    );
                    assert(log.events =~= next.events.subrange(0, log.events.len() as int));
                    assert(log.files =~= next.files.subrange(0, log.files.len() as int));
                    lemma_read_dir_covers(cfg, dir, depth, tree, next);
                    lemma_grows_is_transitive(log, next, after);
                }
            },
        }
    } else {
        let next = with_event(log, entered);
        assert(log.events =~= next.events.subrange(0, log.events.len() as int));
        assert(log.files =~= next.files.subrange(0, log.files.len() as int));
        lemma_read_dir_covers(cfg, dir, depth, tree, next);
        lemma_grows_is_transitive(log, next, after);
    }
}

proof fn lemma_read_dir_covers(
    cfg: ScanConfig,
    dir: Seq<char>,
    depth: u32,
    tree: DirTree,
    log: WalkLog,
)
    ensures
        ({
            let after = read_dir(cfg, dir, depth, tree, log);
            &&& grows(log, after)
            &&& tree.open is Opened ==> entries_are_covered(
                cfg,
                dir,
                tree.entries@,
                after.files,
                after.events,
            )
        }),
    decreases tree, 0int,
{
    let after = read_dir(cfg, dir, depth, tree, log);
    match tree.open {
        OpenOutcome::Opened(volume) => {
            lemma_walk_entries_covers(
                cfg,
                FrameView { dir, depth, volume: optional_text(volume) },
                tree.entries@,
                log,
            );
        },
        _ => {
            assert(log.events =~= after.events.subrange(0, log.events.len() as int));
            assert(log.files =~= after.files.subrange(0, log.files.len() as int));
        },
    }
}

proof fn lemma_walk_entries_covers(
    cfg: ScanConfig,
    frame: FrameView,
    entries: Seq<TreeEntry>,
    log: WalkLog,
)
    ensures
        ({
            let after = walk_entries(cfg, frame, entries, log);
            grows(log, after) && entries_are_covered(
                cfg,
                frame.dir,
                entries,
                after.files,
                after.events,
            )
        }),
    decreases entries, 2int,
{
    let after = walk_entries(cfg, frame, entries, log);
    if entries.len() == 0 {
        assert(log.events =~= after.events.subrange(0, log.events.len() as int));
        assert(log.files =~= after.files.subrange(0, log.files.len() as int));
    } else {
        let e = entries[0];
        let path = entry_path(cfg.platform, frame.dir, e.entry);
        let told = log_after_entry(cfg, log, frame, e.entry);
        lemma_entry_covers(cfg, log, frame, e.entry);
        let next = match child_of(cfg, frame, e.entry) {
            Some(dir) => match e.below {
                Some(tree) => walk_dir(cfg, dir, deeper(frame.depth), *tree, told),
                None => walk_absent(cfg, dir, deeper(frame.depth), told),
            },
            None => told,
        };
        match child_of(cfg, frame, e.entry) {
            Some(dir) => match e.below {
                Some(tree) => lemma_walk_dir_covers(cfg, dir, deeper(frame.depth), *tree, told),
                None => {
                    assert(told.events =~= next.events.subrange(0, told.events.len() as int));
                    assert(told.files =~= next.files.subrange(0, told.files.len() as int));
                },
            },
            None => {
                assert(told.events =~= next.events.subrange(0, told.events.len() as int));
                assert(told.files =~= next.files.subrange(0, told.files.len() as int));
            },
        }
        let rest = entries.subrange(1, entries.len() as int);
        lemma_walk_entries_covers(cfg, frame, rest, next);
        lemma_grows_is_transitive(told, next, after);
        lemma_grows_is_transitive(log, told, after);
        lemma_longer_logs_go_on(cfg.platform, told, after);
        lemma_longer_logs_go_on(cfg.platform, next, after);
        if let Some(tree) = e.below {
            if child_of(cfg, frame, e.entry) == Some(path) {
                lemma_dir_stays_covered(
                    cfg,
                    path,
                    *tree,
                    next.files,
                    next.events,
                    after.files,
                    after.events,
                );
            }
        }
    }
}

/// Whether every wanted file of a recorded root is among the files: the root itself, where it is a
/// file, and else everything below it.
pub open spec fn root_is_covered(
    cfg: ScanConfig,
    root: Seq<char>,
    recorded: RootTree,
    files: Seq<FileEntryView>,
    events: Seq<WalkEventView>,
) -> bool {
    match recorded.facts {
        RootFacts::Found(f) => if f.kind == FileKind::File {
            !is_own_footprint(cfg.platform, root) && is_wanted(cfg, f.size, recorded.verdicts)
                ==> is_listed(cfg.platform, files, root)
        } else {
            match recorded.tree {
                Some(tree) => dir_is_covered(
                    cfg,
                    walked_root(cfg.platform, root),
                    tree,
                    files,
                    events,
                ),
                None => true,
            }
        },
        _ => true,
    }
}

proof fn lemma_root_stays_covered(
    cfg: ScanConfig,
    root: Seq<char>,
    recorded: RootTree,
    f1: Seq<FileEntryView>,
    e1: Seq<WalkEventView>,
    f2: Seq<FileEntryView>,
    e2: Seq<WalkEventView>,
)
    requires
        root_is_covered(cfg, root, recorded, f1, e1),
        goes_on(cfg.platform, f1, e1, f2, e2),
    ensures
        root_is_covered(cfg, root, recorded, f2, e2),
{
    if let Some(tree) = recorded.tree {
        let dir = walked_root(cfg.platform, root);
        if dir_is_covered(cfg, dir, tree, f1, e1) {
            lemma_dir_stays_covered(cfg, dir, tree, f1, e1, f2, e2);
        }
    }
}

proof fn lemma_walk_roots_covers(cfg: ScanConfig, roots: Seq<RootTree>, i: nat, log: WalkLog, k: int)
    requires
        i <= k < cfg.roots@.len(),
        walk_roots(cfg, roots, i, log).1 is None,
    ensures
        ({
            let after = walk_roots(cfg, roots, i, log).0;
            &&& grows(log, after)
            &&& k < roots.len()
            &&& roots[k].facts is Found
            &&& root_is_covered(cfg, cfg.roots@[k]@, roots[k], after.files, after.events)
        }),
    decreases cfg.roots@.len() - i,
{
    let after = walk_roots(cfg, roots, i, log).0;
    let root = cfg.roots@[i as int]@;
    let r = roots[i as int];
    let f = r.facts->Found_0;
    let dir = walked_root(cfg.platform, root);
    let next = if f.kind is File {
        with_outcome(
            cfg,
            log,
            root,
            root_outcome(cfg, root, f, r.verdicts),
            root_judged_size(cfg, root, f),
            r.verdicts,
        )
    } else {
        match r.tree {
            Some(t) => walk_dir(cfg, dir, 0, t, log),
            None => walk_absent(cfg, dir, 0, log),
        }
    };
    assert(i < roots.len() && r.facts is Found);
    if f.kind is File || r.tree is None {
        assert(log.events =~= next.events.subrange(0, log.events.len() as int));
        assert(log.files =~= next.files.subrange(0, log.files.len() as int));
        if f.kind is File && !is_own_footprint(cfg.platform, root) && is_wanted(
            cfg,
            f.size,
            r.verdicts,
        ) {
            assert(next.files[log.files.len() as int].path == root);
        }
    } else {
        lemma_walk_dir_covers(cfg, dir, 0, r.tree->0, log);
    }
    assert(root_is_covered(cfg, root, r, next.files, next.events));
    if i + 1 < cfg.roots@.len() {
        let at: int = if k > i {
            k
        } else {
            (i + 1) as int
        };
        lemma_walk_roots_covers(cfg, roots, i + 1, next, at);
    } else {
        assert(next.events =~= after.events.subrange(0, next.events.len() as int));
        assert(next.files =~= after.files.subrange(0, next.files.len() as int));
    }
    lemma_grows_is_transitive(log, next, after);
    if k == i {
        lemma_longer_logs_go_on(cfg.platform, next, after);
        lemma_root_stays_covered(
            cfg,
            root,
            r,
            next.files,
            next.events,
            after.files,
            after.events,
        );
    }
}

/// A walk is complete: where it ends well, every root was found, and every wanted file of every
/// root is among the files that come out, each path once.
pub proof fn walks_are_complete(cfg: ScanConfig, roots: Seq<RootTree>, k: int)
    requires
        0 <= k < cfg.roots@.len(),
        walk_roots(cfg, roots, 0, start_log()).1 is None,
    ensures
        ({
            let log = walk_roots(cfg, roots, 0, start_log()).0;
            &&& k < roots.len()
            &&& roots[k].facts is Found
            &&& root_is_covered(
                cfg,
                cfg.roots@[k]@,
                roots[k],
                deduped(cfg.platform, log.files),
                log.events,
            )
        }),
{
    let log = walk_roots(cfg, roots, 0, start_log()).0;
    let kept = deduped(cfg.platform, log.files);
    lemma_walk_roots_covers(cfg, roots, 0, start_log(), k);
    deduped_is_complete(cfg.platform, log.files);
    assert forall|path: Seq<char>| is_listed(cfg.platform, log.files, path) implies #[trigger] is_listed(
        cfg.platform,
        kept,
        path,
    ) by {
        let c = components(cfg.platform, path);
        assert(has_path(cfg.platform, log.files, c));
        assert(has_path(cfg.platform, kept, c));
    }
    lemma_root_stays_covered(
        cfg,
        cfg.roots@[k]@,
        roots[k],
        log.files,
        log.events,
        kept,
        log.events,
    );
}

/// A walk fails exactly when a root was not found, and it names the first such root.
pub proof fn walks_fail_for_missing_roots(cfg: ScanConfig, roots: Seq<RootTree>, i: nat, log: WalkLog)
    requires
        i <= cfg.roots@.len(),
    ensures
        match walk_roots(cfg, roots, i, log).1 {
            None => forall|k: int|
                i <= k < cfg.roots@.len() ==> k < roots.len() && (#[trigger] roots[k]).facts is Found,
            Some(root) => exists|k: int|
                {
                    &&& i <= k < cfg.roots@.len()
                    &&& root == (#[trigger] cfg.roots@[k])@
                    &&& k >= roots.len() || !(roots[k].facts is Found)
                    &&& forall|j: int|
                        i <= j < k ==> j < roots.len() && (#[trigger] roots[j]).facts is Found
                },
        },
    decreases cfg.roots@.len() - i,
{
    if i < cfg.roots@.len() {
        let root = cfg.roots@[i as int]@;
        if i < roots.len() && roots[i as int].facts is Found {
            let r = roots[i as int];
            let f = r.facts->Found_0;
            let dir = walked_root(cfg.platform, root);
            let next = if f.kind is File {
                with_outcome(
                    cfg,
                    log,
                    root,
                    root_outcome(cfg, root, f, r.verdicts),
                    root_judged_size(cfg, root, f),
                    r.verdicts,
                )
            } else {
                match r.tree {
                    Some(t) => walk_dir(cfg, dir, 0, t, log),
                    None => walk_absent(cfg, dir, 0, log),
                }
            };
            walks_fail_for_missing_roots(cfg, roots, i + 1, next);
            if let Some(failed) = walk_roots(cfg, roots, i, log).1 {
                let k = choose|k: int|
                    {
                        &&& i + 1 <= k < cfg.roots@.len()
                        &&& failed == (#[trigger] cfg.roots@[k])@
                        &&& k >= roots.len() || !(roots[k].facts is Found)
                        &&& forall|j: int|
                            i + 1 <= j < k ==> j < roots.len() && (#[trigger] roots[j]).facts is Found
                    };
                assert(failed == cfg.roots@[k]@);
            }
        } else {
            assert(walk_roots(cfg, roots, i, log).1 == Some(cfg.roots@[i as int]@));
        }
    }
}

/// Where links are followed, a directory whose identity was not met yet is entered and told of,
/// and its identity is kept; one whose identity was met is not, and that is told.
pub proof fn only_new_directories_are_entered(
    cfg: ScanConfig,
    dir: Seq<char>,
    depth: u32,
    tree: DirTree,
    log: WalkLog,
)
    requires
        cfg.follow_links,
        tree.identity is Some,
    ensures
        ({
            let id = tree.identity->0;
            let after = walk_dir(cfg, dir, depth, tree, log);
            let told = after.events[log.events.len() as int];
            if log.visited.contains((id.volume_serial, id.file_id)) {
                &&& after.files == log.files
                &&& after.visited == log.visited
                &&& after.events.len() == log.events.len() + 1
                &&& told matches WalkEventView::SymlinkCycleSkipped { from, .. } && from == dir
            } else {
                &&& after.events.len() > log.events.len()
                &&& told == (WalkEventView::Entered { path: dir, depth })
            }
        }),
{
    let id = tree.identity->0;
    let key = (id.volume_serial, id.file_id);
    let entered = WalkEventView::Entered { path: dir, depth };
    if !log.visited.contains(key) {
        let next = with_event(WalkLog { visited: log.visited.insert(key), ..log }, entered);
        lemma_read_dir_covers(cfg, dir, depth, tree, next);
        let after = walk_dir(cfg, dir, depth, tree, log);
        assert(after == read_dir(cfg, dir, depth, tree, next));
        assert(next.events[log.events.len() as int] == entered);
        assert(after.events.subrange(0, next.events.len() as int) == next.events);
    }
}

/// A directory to be entered is entered at the depth below that of the directory it was found in,
/// and before anything else is read: with links not followed it is told of and opened next, with
/// links followed its identity is asked for.
pub proof fn found_directories_are_next(cfg: ScanConfig, st: WalkState, entry: WalkEntry)
    requires
        st.stage is Reading,
        st.frames.len() > 0,
        st.frames.last().depth < u32::MAX,
        thing_at(cfg, entry) matches Some(t) && t.0 == FileKind::Directory,
        !is_own_footprint(
            cfg.platform,
            entry_path(cfg.platform, st.frames.last().dir, entry),
        ),
    ensures
        ({
            let dir = entry_path(cfg.platform, st.frames.last().dir, entry);
            let depth = (st.frames.last().depth + 1) as u32;
            let next = after_entry(cfg, st, Some(entry));
            &&& next.frames == st.frames
            &&& next.log.files == st.log.files
            &&& cfg.follow_links ==> next.stage == (StageView::Identify { dir, depth })
                && next.log.events == st.log.events
            &&& !cfg.follow_links ==> next.stage == (StageView::Open { dir, depth })
                && next.log.events == st.log.events.push(WalkEventView::Entered { path: dir, depth })
        }),
{
    let next = after_entry(cfg, st, Some(entry));
    lemma_entry_covers(cfg, st.log, st.frames.last(), entry);
    assert(st.log.files + Seq::<FileEntryView>::empty() =~= st.log.files);
    assert(st.log.events + Seq::<WalkEventView>::empty() =~= st.log.events);
}

/// A directory that is open is read to its end, a directory that cannot be opened is told of, one
/// that is gone is passed over, and in each case the walk goes on with the directories above it.
pub proof fn opened_directories_are_read(st: WalkState, dir: Seq<char>, depth: u32, outcome: OpenOutcome)
    requires
        st.stage == (StageView::Open { dir, depth }),
    ensures
        ({
            let next = after_open(st, outcome);
            &&& next.stage is Reading
            &&& next.log.files == st.log.files
            &&& next.next_root == st.next_root
            &&& match outcome {
                OpenOutcome::Opened(_) => next.frames.drop_last() == st.frames
                    && next.frames.last().dir == dir && next.frames.last().depth == depth
                    && next.log == st.log,
                OpenOutcome::NotFound => next.frames == st.frames && next.log == st.log,
                OpenOutcome::PermissionDenied => next.frames == st.frames && next.log.events
                    == st.log.events.push(
                    WalkEventView::DirError { path: dir, message: "permission denied"@ },
                ),
                OpenOutcome::Failed(why) => next.frames == st.frames && next.log.events
                    == st.log.events.push(WalkEventView::DirError { path: dir, message: why@ }),
            }
        }),
{
    assert(after_open(st, outcome).frames.len() > st.frames.len()
        ==> after_open(st, outcome).frames.drop_last() =~= st.frames);
}

/// The walk asks for what it needs next: the roots one after the other, each entry of the innermost
/// open directory until there is none left, and nothing once all roots are done or one is missing.
pub proof fn walks_ask_in_order(cfg: ScanConfig, st: WalkState)
    requires
        st.stage is Reading,
    ensures
        st.frames.len() > 0 ==> requested(cfg, st) == RequestView::NextEntry(st.frames.last().dir),
        st.frames.len() == 0 && st.next_root < cfg.roots@.len() ==> requested(cfg, st)
            == RequestView::Root(cfg.roots@[st.next_root as int]@),
        st.frames.len() == 0 && st.next_root >= cfg.roots@.len() ==> requested(cfg, st) is Nothing,
        st.frames.len() > 0 ==> after_entry(cfg, st, None).frames == st.frames.drop_last()
            && after_entry(cfg, st, None).log == st.log,
{
}

/// The identity of a directory decides once: where it was not met yet it is kept, the directory is
/// told of and opened next; where it was met, nothing is opened, and where the disk has it is asked
/// for. A directory without an identity is told of as such, and passed over.
pub proof fn identities_decide_once(st: WalkState, dir: Seq<char>, depth: u32, id: DirIdentity)
    requires
        st.stage == (StageView::Identify { dir, depth }),
    ensures
        ({
            let next = after_identity(st, Some(id));
            let key = (id.volume_serial, id.file_id);
            let none = after_identity(st, None);
            &&& !st.log.visited.contains(key) ==> {
                &&& next.stage == (StageView::Open { dir, depth })
                &&& next.log.visited == st.log.visited.insert(key)
                &&& next.log.events == st.log.events.push(WalkEventView::Entered { path: dir, depth })
            }
            &&& st.log.visited.contains(key) ==> {
                &&& next.stage == (StageView::Locate { dir })
                &&& next.log == st.log
            }
            &&& next.frames == st.frames && next.log.files == st.log.files
            &&& none.stage is Reading
            &&& none.frames == st.frames
            &&& none.log.events == st.log.events.push(
                WalkEventView::DirError { path: dir, message: "identity unavailable"@ },
            )
        }),
{
}

/// A directory that was met again is told of under its own path, with where it lies, or its own
/// path where that is unknown.
pub proof fn met_directories_are_told(st: WalkState, dir: Seq<char>, canonical: Option<Seq<char>>)
    requires
        st.stage == (StageView::Locate { dir }),
    ensures
        ({
            let next = after_location(st, canonical);
            &&& next.stage is Reading
            &&& next.frames == st.frames
            &&& next.log.files == st.log.files
            &&& canonical matches Some(target) ==> next.log.events == st.log.events.push(
                WalkEventView::SymlinkCycleSkipped { from: dir, target },
            )
            &&& canonical is None ==> next.log.events == st.log.events.push(
                WalkEventView::SymlinkCycleSkipped { from: dir, target: dir },
            )
        }),
{
}

/// A root on a drive is walked in its verbatim form on Windows, and every other root as it was
/// given.
pub proof fn roots_are_walked_in_full_length(root: Seq<char>)
    ensures
        walked_root(Platform::Unix, root) == root,
        root.len() >= 3 && ('A' <= root[0] <= 'Z' || 'a' <= root[0] <= 'z') && root[1] == ':' && root[2]
            == '\\' ==> walked_root(Platform::Windows, root) == seq!['\\', '\\', '?', '\\'] + root,
        root.len() < 2 || root[1] != ':' ==> walked_root(Platform::Windows, root) == root,
{
}

/// A root is taken by what it is: a missing or unreadable one ends the walk with its own path, a
/// file is judged like any other, and a directory is entered at depth `0`.
pub proof fn roots_are_taken_by_what_they_are(
    cfg: ScanConfig,
    st: WalkState,
    facts: FileFacts,
    message: String,
    verdicts: PathVerdicts,
)
    requires
        st.stage is Reading,
        st.frames.len() == 0,
        st.next_root < cfg.roots@.len(),
    ensures
        ({
            let root = cfg.roots@[st.next_root as int]@;
            let missing = after_root(cfg, st, RootFacts::Missing, verdicts);
            let unreadable = after_root(cfg, st, RootFacts::Unreadable(message), verdicts);
            let next = after_root(cfg, st, RootFacts::Found(facts), verdicts);
            &&& missing.stage == (StageView::Failed { root })
            &&& missing.log.events == st.log.events.push(
                WalkEventView::DirError { path: root, message: "path not found"@ },
            )
            &&& unreadable.stage == (StageView::Failed { root })
            &&& unreadable.log.events == st.log.events.push(
                WalkEventView::DirError { path: root, message: "metadata failed: "@ + message@ },
            )
            &&& next.next_root == st.next_root + 1
            &&& facts.kind is File ==> next.stage is Reading && next.frames.len() == 0
            &&& facts.kind is File && !is_own_footprint(cfg.platform, root) && is_wanted(
                cfg,
                facts.size,
                verdicts,
            ) ==> next.log.files.len() == st.log.files.len() + 1 && next.log.files.last().path == root
                && next.log.files.last().size == facts.size
            &&& facts.kind is File && !(!is_own_footprint(cfg.platform, root) && is_wanted(
                cfg,
                facts.size,
                verdicts,
            )) ==> next.log.files == st.log.files
            &&& !(facts.kind is File) && cfg.follow_links ==> next.stage == (StageView::Identify {
                dir: walked_root(cfg.platform, root),
                depth: 0,
            })
            &&& !(facts.kind is File) && !cfg.follow_links ==> next.stage == (StageView::Open {
                dir: walked_root(cfg.platform, root),
                depth: 0,
            })
        }),
{
    let root = cfg.roots@[st.next_root as int]@;
    let next = after_root(cfg, st, RootFacts::Found(facts), verdicts);
    assert(requested(cfg, st) is Root);
    if facts.kind is File {
        assert(next.log.files == st.log.files + outcome_files(root_outcome(cfg, root, facts, verdicts)));
        if !is_own_footprint(cfg.platform, root) && is_wanted(cfg, facts.size, verdicts) {
            assert(filter_reason(cfg, facts.size, verdicts) is None);
        } else {
            assert(root_outcome(cfg, root, facts, verdicts) is Skip);
            assert(next.log.files =~= st.log.files);
        }
    }
}

} // verus!
