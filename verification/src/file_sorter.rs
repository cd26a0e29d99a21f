//! The sorter: for each file of a walk it decides what is to be done so
//! that the position of the file and its tags agree. It decides only; the
//! caller reads the files and carries the decisions out.

use crate::music_file::{
    lemma_move_settles, lemma_rewrite_settles, tags_of_block, text_or_empty,
    write_for, MusicFile, MusicFileView, TagWrite, TagWriteView,
};
use crate::path::{has_extension, join, joined, names_a_directory, parent, parent_of};
use crate::relative::{diff_paths, relative_path_from};
use crate::tag_block::{TagBlock, TagBlockView};
use crate::tags::{Tags, TagsView};
use vstd::prelude::*;

verus! {

/// Which of the two descriptions of a file is brought in line with the other.
#[derive(Debug, Clone, Copy, PartialEq, Eq)]
pub enum ActionOnFile {
    /// The position is right: the tags are rewritten from it.
    ModifyTags,
    /// The tags are right: the file is moved to the path that they give.
    MoveFiles,
}

/// The configuration of one pass over a collection.
#[derive(Debug, Clone, PartialEq, Eq)]
pub struct FileSorter {
    pub base_path: String,
    pub metainfo_source: ActionOnFile,
    pub dry_run: bool,
}

/// What a `FileSorter` holds.
pub struct FileSorterView {
    pub base_path: Seq<char>,
    pub metainfo_source: ActionOnFile,
    pub dry_run: bool,
}

/// One entry of a directory walk: its path, whether it is a directory, and
/// the tag block that the codec read from it, if it read one.
#[derive(Debug, Clone, PartialEq, Eq)]
pub struct WalkEntry {
    pub path: String,
    pub is_dir: bool,
    pub tag_block: Option<TagBlock>,
}

/// What a `WalkEntry` holds.
pub struct WalkEntryView {
    pub path: Seq<char>,
    pub is_dir: bool,
    pub tag_block: Option<TagBlockView>,
}

/// A track record together with the tag block read from its file.
#[derive(Debug, Clone, PartialEq, Eq)]
pub struct Track {
    pub file: MusicFile,
    pub block: TagBlock,
}

/// What a `Track` holds.
pub struct TrackView {
    pub file: MusicFileView,
    pub block: TagBlockView,
}

/// What is shown of a file that needs a change, for a reader to judge.
#[derive(Debug, Clone, PartialEq, Eq)]
pub enum Preview {
    /// Where the file is and where its tags place it.
    Path { real_path: String, path_from_tags: String },
    /// The tags that the file carries and those that its position gives.
    Tags { path: String, old_tags: Tags, new_tags: Tags },
}

/// What a `Preview` holds.
pub enum PreviewView {
    Path { real_path: Seq<char>, path_from_tags: Seq<char> },
    Tags { path: Seq<char>, old_tags: TagsView, new_tags: TagsView },
}

/// A move of one file: both full paths, and the directory to make first.
#[derive(Debug, Clone, PartialEq, Eq)]
pub struct MovePlan {
    pub source: String,
    pub destination: String,
    pub destination_dir: String,
}

/// What a `MovePlan` holds.
pub struct MovePlanView {
    pub source: Seq<char>,
    pub destination: Seq<char>,
    pub destination_dir: Seq<char>,
}

/// What is to be done with one file.
#[derive(Debug, Clone, PartialEq, Eq)]
pub enum FileAction {
    /// Position and tags agree.
    Unchanged,
    /// They disagree and the pass is a dry run: show the difference only.
    PreviewOnly(Preview),
    /// Show the difference, then rewrite the tag block.
    RewriteTags(Preview, TagWrite),
    /// Show the difference, then move the file.
    Move(Preview, MovePlan),
}

/// What a `FileAction` holds.
pub enum FileActionView {
    Unchanged,
    PreviewOnly(PreviewView),
    RewriteTags(PreviewView, TagWriteView),
    Move(PreviewView, MovePlanView),
}

impl View for FileSorter {
    type V = FileSorterView;

    open spec fn view(&self) -> FileSorterView {
        FileSorterView {
            base_path: self.base_path@,
            metainfo_source: self.metainfo_source,
            dry_run: self.dry_run,
        }
    }
}

impl View for WalkEntry {
    type V = WalkEntryView;

    open spec fn view(&self) -> WalkEntryView {
        WalkEntryView {
            path: self.path@,
            is_dir: self.is_dir,
            tag_block: self.tag_block.deep_view(),
        }
    }
}

impl DeepView for WalkEntry {
    type V = WalkEntryView;

    open spec fn deep_view(&self) -> WalkEntryView {
        self@
    }
}

impl View for Track {
    type V = TrackView;

    open spec fn view(&self) -> TrackView {
        TrackView { file: self.file@, block: self.block@ }
    }
}

impl DeepView for Track {
    type V = TrackView;

    open spec fn deep_view(&self) -> TrackView {
        self@
    }
}

impl View for Preview {
    type V = PreviewView;

    open spec fn view(&self) -> PreviewView {
        match self {
            Preview::Path { real_path, path_from_tags } => PreviewView::Path {
                real_path: real_path@,
                path_from_tags: path_from_tags@,
            },
            Preview::Tags { path, old_tags, new_tags } => PreviewView::Tags {
                path: path@,
                old_tags: old_tags@,
                new_tags: new_tags@,
            },
        }
    }
}

impl View for MovePlan {
    type V = MovePlanView;

    open spec fn view(&self) -> MovePlanView {
        MovePlanView {
            source: self.source@,
            destination: self.destination@,
            destination_dir: self.destination_dir@,
        }
    }
}

impl View for FileAction {
    type V = FileActionView;

    open spec fn view(&self) -> FileActionView {
        match self {
            FileAction::Unchanged => FileActionView::Unchanged,
            FileAction::PreviewOnly(preview) => FileActionView::PreviewOnly(preview@),
            FileAction::RewriteTags(preview, write) => FileActionView::RewriteTags(
                preview@,
                write@,
            ),
            FileAction::Move(preview, plan) => FileActionView::Move(preview@, plan@),
        }
    }
}

impl DeepView for FileAction {
    type V = FileActionView;

    open spec fn deep_view(&self) -> FileActionView {
        self@
    }
}

impl FileActionView {
    /// The action changes the file: its tag block or its place.
    pub open spec fn mutates(self) -> bool {
        self is RewriteTags || self is Move
    }
}

impl TrackView {
    /// The track after `action` was carried out on it. A moved file is
    /// taken to stand at the composed path as it is written, which is where
    /// a walk finds it when no segment of that path is empty or a dot name.
    pub open spec fn after(self, action: FileActionView) -> TrackView {
        match action {
            FileActionView::Unchanged => self,
            FileActionView::PreviewOnly(_) => self,
            FileActionView::RewriteTags(_, write) => TrackView {
                block: self.block.after_all(write.edits),
                ..self
            },
            FileActionView::Move(preview, _) => match preview {
                PreviewView::Path { path_from_tags, .. } => TrackView {
                    file: self.file.moved_to(path_from_tags),
                    ..self
                },
                PreviewView::Tags { .. } => self,
            },
        }
    }
}

/// The track record that an entry of the walk gives, where `relative` is
/// the path that leads to it from the collection root. A directory gives
/// none, nor does a file that no relative path leads to, that the codec
/// read no tag block from, or whose name has no extension.
pub open spec fn classified(
    s: FileSorterView,
    e: WalkEntryView,
    relative: Option<Seq<char>>,
) -> Option<TrackView> {
    if e.is_dir {
        None
    } else {
        match (relative, e.tag_block) {
            (Some(relative_path), Some(block)) => if has_extension(relative_path) {
                Some(
                    TrackView {
                        file: MusicFileView { base_path: s.base_path, relative_path },
                        block,
                    },
                )
            } else {
                None
            },
            _ => None,
        }
    }
}

/// `classified`, with the relative path computed from the entry's own path.
pub open spec fn classifier(s: FileSorterView) -> spec_fn(WalkEntryView) -> Option<TrackView> {
    |e: WalkEntryView| classified(s, e, relative_path_from(e.path, s.base_path))
}

/// The move that brings `f` to the path that the tags in `b` give.
pub open spec fn move_plan(s: FileSorterView, f: MusicFileView, b: TagBlockView) -> MovePlanView {
    let destination = joined(s.base_path, f.path_from_tags(tags_of_block(b)));
    MovePlanView {
        source: joined(s.base_path, f.relative_path),
        destination,
        destination_dir: text_or_empty(parent_of(destination)),
    }
}

/// What is done with a file when its tags are taken as right.
pub open spec fn move_action(s: FileSorterView, f: MusicFileView, b: TagBlockView) -> FileActionView {
    if f.paths_match(b) {
        FileActionView::Unchanged
    } else {
        let preview = PreviewView::Path {
            real_path: f.relative_path,
            path_from_tags: f.path_from_tags(tags_of_block(b)),
        };
        if s.dry_run {
            FileActionView::PreviewOnly(preview)
        } else {
            FileActionView::Move(preview, move_plan(s, f, b))
        }
    }
}

/// What is done with a file when its position is taken as right.
pub open spec fn modify_action(
    s: FileSorterView,
    f: MusicFileView,
    b: TagBlockView,
) -> FileActionView {
    if f.tags_match(b) {
        FileActionView::Unchanged
    } else {
        let preview = PreviewView::Tags {
            path: f.relative_path,
            old_tags: tags_of_block(b),
            new_tags: f.tags_from_path(),
        };
        if s.dry_run {
            FileActionView::PreviewOnly(preview)
        } else {
            FileActionView::RewriteTags(
                preview,
                write_for(f.tags_from_path().track_number_fixed()),
            )
        }
    }
}

/// What is done with a track, by the sorter's mode.
pub open spec fn action_for(s: FileSorterView, t: TrackView) -> FileActionView {
    match s.metainfo_source {
        ActionOnFile::MoveFiles => move_action(s, t.file, t.block),
        ActionOnFile::ModifyTags => modify_action(s, t.file, t.block),
    }
}

/// The `action_for` of one sorter, as a function of the track.
pub open spec fn actor(s: FileSorterView) -> spec_fn(TrackView) -> FileActionView {
    |t: TrackView| action_for(s, t)
}

/// Every track of `tracks` is a well-formed record.
pub open spec fn all_wf(tracks: Seq<TrackView>) -> bool {
    forall|i: int| 0 <= i < tracks.len() ==> (#[trigger] tracks[i]).file.wf()
}

/// A dry run changes nothing: whatever the file, the action is to leave it
/// or to show the difference, and the difference is shown exactly where
/// position and tags disagree.
pub proof fn lemma_dry_run_changes_nothing(s: FileSorterView, t: TrackView)
    requires
        s.dry_run,
    ensures
        !action_for(s, t).mutates(),
        t.after(action_for(s, t)) == t,
        action_for(s, t) is PreviewOnly <==> !(action_for(s, t) is Unchanged),
        s.metainfo_source is MoveFiles ==> (action_for(s, t) is Unchanged <==> t.file.paths_match(
            t.block,
        )),
        s.metainfo_source is ModifyTags ==> (action_for(s, t) is Unchanged <==> t.file.tags_match(
            t.block,
        )),
{
}

/// A second pass in the same mode finds nothing to do. Once the action for
/// a track was carried out, either the file is no track record any more
/// (it was moved to a name without extension, which its tags gave), or the
/// action for it is to leave it unchanged.
///
/// In the mode that rewrites tags this holds of a file whose block carried
/// no track number. In the mode that moves files it holds of a file whose
/// artist and album name a directory: with an empty segment or a dot name
/// in the composed path, the next walk finds the file at another text than
/// the one it was moved to.
pub proof fn lemma_second_pass_is_quiet(s: FileSorterView, t: TrackView)
    requires
        !s.dry_run,
        t.file.wf(),
        s.metainfo_source is ModifyTags ==> t.block.track_number is None,
        s.metainfo_source is MoveFiles ==> names_a_directory(tags_of_block(t.block).artist)
            && names_a_directory(tags_of_block(t.block).album),
    ensures
        ({
            let settled = t.after(action_for(s, t));
            !settled.file.wf() || action_for(s, settled) is Unchanged
        }),
{
    match s.metainfo_source {
        ActionOnFile::MoveFiles => {
            lemma_move_settles(t.file, t.block);
        },
        ActionOnFile::ModifyTags => {
            lemma_rewrite_settles(t.file, t.block);
        },
    }
}

impl FileSorter {
    /// A sorter for the collection below `base`.
    pub fn new(base: &String, metainfo_source: ActionOnFile, dry_run: bool) -> (r: Self)
        ensures
            r@ == (FileSorterView { base_path: base@, metainfo_source, dry_run }),
    {
        FileSorter { base_path: base.clone(), metainfo_source, dry_run }
    }

    /// The path that leads from the collection root to `path`.
    pub fn relative_path(&self, path: &String) -> (r: Option<String>)
        ensures
            r.deep_view() == relative_path_from(path@, self.base_path@),
    {
        diff_paths(path.as_str(), self.base_path.as_str())
    }

    /// Makes the track record of an entry of the walk, given the path that
    /// leads to it from the collection root.
    pub fn classify_at(&self, entry: &WalkEntry, relative: Option<String>) -> (r: Option<Track>)
        ensures
            r.deep_view() == classified(self@, entry@, relative.deep_view()),
            r matches Some(t) ==> t.file@.wf(),
    {
        if entry.is_dir {
            return None;
        }
        match (relative, &entry.tag_block) {
            (Some(relative_path), Some(block)) => {
                match MusicFile::new(&self.base_path, &relative_path, true) {
                    Some(file) => Some(Track { file, block: block.duplicate() }),
                    None => None,
                }
            },
            _ => None,
        }
    }

    /// Makes the track record of an entry of the walk.
    pub fn classify(&self, entry: &WalkEntry) -> (r: Option<Track>)
        ensures
            r.deep_view() == classifier(self@)(entry@),
            r matches Some(t) ==> t.file@.wf(),
    {
        if entry.is_dir {
            return None;
        }
        let relative = self.relative_path(&entry.path);
        self.classify_at(entry, relative)
    }

    /// The track records of a walk, in the order of the walk.
    pub fn for_each_music_file(&self, entries: &Vec<WalkEntry>) -> (r: Vec<Track>)
        ensures
            r.deep_view() == entries.deep_view().filter_map(classifier(self@)),
            all_wf(r.deep_view()),
    {
        let n: usize = entries.len();
        let mut tracks: Vec<Track> = Vec::new();
        let mut i: usize = 0;
        let ghost all = entries.deep_view();
        let ghost pick = classifier(self@);
        assert(all.take(0).filter_map(pick) =~= Seq::<TrackView>::empty());
        assert(tracks.deep_view() =~= Seq::<TrackView>::empty());
        while i < n
            invariant
                n == entries.len(),
                i <= n,
                all == entries.deep_view(),
                pick == classifier(self@),
                tracks.deep_view() == all.take(i as int).filter_map(pick),
                all_wf(tracks.deep_view()),
            decreases n - i,
        {
            let ghost before = tracks.deep_view();
            proof {
                all.lemma_filter_map_take_succ(pick, i as int);
                assert(all[i as int] == entries[i as int]@);
            }
            match self.classify(&entries[i]) {
                Some(track) => {
                    tracks.push(track);
                    assert(tracks.deep_view() =~= before + seq![track@]);
                },
                None => {},
            }
            i += 1;
        }
        assert(all.take(n as int) =~= all);
        tracks
    }

    /// Plans the move of `file` to the path that the tags in `block` give.
    pub fn copy_to_tag_based_directory(&self, file: &MusicFile, block: &TagBlock) -> (r: MovePlan)
        requires
            file@.wf(),
        ensures
            r@ == move_plan(self@, file@, block@),
    {
        let source = join(self.base_path.as_str(), file.relative_path.as_str());
        let derived = file.compose_path_from_tags(&file.tags(block));
        let destination = join(self.base_path.as_str(), derived.as_str());
        let destination_dir = match parent(destination.as_str()) {
            Some(dir) => String::from_str(dir),
            None => String::new(),
        };
        MovePlan { source, destination, destination_dir }
    }

    /// Decides what is done with a file when its tags are taken as right:
    /// nothing where it stands at the path that they give; else the two
    /// paths are shown and, unless this is a dry run, the file is moved.
    pub fn move_file(&self, music_file: &MusicFile, block: &TagBlock) -> (r: FileAction)
        requires
            music_file@.wf(),
        ensures
            r@ == move_action(self@, music_file@, block@),
            self.dry_run ==> !r@.mutates(),
    {
        if music_file.paths_match(block) {
            return FileAction::Unchanged;
        }
        let preview = Preview::Path {
            real_path: music_file.relative_path.clone(),
            path_from_tags: music_file.compose_path_from_tags(&music_file.tags(block)),
        };
        if self.dry_run {
            return FileAction::PreviewOnly(preview);
        }
        FileAction::Move(preview, self.copy_to_tag_based_directory(music_file, block))
    }

    /// Decides what is done with a file when its position is taken as
    /// right: nothing where its tags are those that the position gives;
    /// else both tag sets are shown and, unless this is a dry run, the tag
    /// block is rewritten from the position, with the track number cut down
    /// to its leading digits.
    pub fn modify_tags(&self, music_file: &MusicFile, block: &TagBlock) -> (r: FileAction)
        ensures
            r@ == modify_action(self@, music_file@, block@),
            self.dry_run ==> !r@.mutates(),
    {
        if music_file.tags_match(block) {
            return FileAction::Unchanged;
        }
        let mut fs_tags = music_file.compose_tags_from_path();
        let preview = Preview::Tags {
            path: music_file.relative_path.clone(),
            old_tags: music_file.tags(block),
            new_tags: fs_tags.duplicate(),
        };
        if self.dry_run {
            return FileAction::PreviewOnly(preview);
        }
        fs_tags.fix_track_number();
        FileAction::RewriteTags(preview, music_file.set_tags(&fs_tags))
    }

    /// Decides what is done with a track, by the sorter's mode.
    pub fn act(&self, track: &Track) -> (r: FileAction)
        requires
            track.file@.wf(),
        ensures
            r@ == action_for(self@, track@),
            self.dry_run ==> !r@.mutates(),
    {
        match self.metainfo_source {
            ActionOnFile::MoveFiles => self.move_file(&track.file, &track.block),
            ActionOnFile::ModifyTags => self.modify_tags(&track.file, &track.block),
        }
    }

    /// Decides what is done with each track record of a walk, in the order
    /// of the walk.
    pub fn run(&self, entries: &Vec<WalkEntry>) -> (r: Vec<FileAction>)
        ensures
            r.deep_view() == entries.deep_view().filter_map(classifier(self@)).map_values(
                actor(self@),
            ),
            self.dry_run ==> forall|i: int| 0 <= i < r.len() ==> !(#[trigger] r[i])@.mutates(),
    {
        let tracks = self.for_each_music_file(entries);
        let n: usize = tracks.len();
        let mut actions: Vec<FileAction> = Vec::new();
        let mut i: usize = 0;
        let ghost all = tracks.deep_view();
        let ghost f = actor(self@);
        assert(actions.deep_view() =~= all.take(0).map_values(f));
        while i < n
            invariant
                n == tracks.len(),
                i <= n,
                all == tracks.deep_view(),
                all_wf(all),
                f == actor(self@),
                actions.len() == i,
                actions.deep_view() == all.take(i as int).map_values(f),
                self.dry_run ==> forall|j: int|
                    0 <= j < actions.len() ==> !(#[trigger] actions[j])@.mutates(),
            decreases n - i,
        {
            let ghost before = actions.deep_view();
            assert(all[i as int] == tracks[i as int]@);
            let action = self.act(&tracks[i]);
            actions.push(action);
            assert(actions.deep_view() =~= before.push(action@));
            assert(all.take(i + 1).map_values(f) =~= all.take(i as int).map_values(f).push(
                f(all[i as int]),
            ));
            i += 1;
        }
        assert(all.take(n as int) =~= all);
        actions
    }
}

} // verus!
