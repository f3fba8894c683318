//! Decision logic of the user-facing file open and save flows.
//!
//! A native picker dialog and the disk reads and writes run on offloaded
//! worker execution outside this library.  What stands here is every
//! decision between those steps: which filters the pickers offer, what each
//! picker outcome leads to, and how a read or write result is turned into
//! the outcome reported to the caller.  The picker phase of a flow always
//! completes (or is cancelled) before the functions that consume its result
//! are reached, so the two phases never race.

use vstd::prelude::*;

verus! {

/// What a picker dialog handed back.
pub enum PickedSource {
    /// The user chose a plain local file-system path.
    Local(String),
    /// The user chose a location reachable only through the platform's
    /// abstract-resource addressing (for example a content URL); such
    /// sources are not read or written by this layer.
    AbstractResource,
    /// The user dismissed the dialog without choosing anything.
    Cancelled,
}

/// Outcome of the open flow, as reported to the caller.
pub enum OpenOutcome {
    /// The chosen file was read in full.
    Opened { content: String, display_name: String },
    /// The user cancelled the picker.  An expected outcome, not an error:
    /// nothing was read.
    Cancelled,
    /// The chosen source is outside this layer's capability.
    UnsupportedLocation,
    /// The chosen path existed in the dialog's view but reading it failed.
    ReadFailed(String),
    /// The offloaded execution itself could not run to completion.
    ExecutionFailed(String),
}

/// Outcome of the save-as flow, as reported to the caller.
pub enum SaveOutcome {
    /// The content was written in full; carries the chosen absolute path.
    Saved(String),
    /// The user cancelled the picker.  An expected outcome, not an error:
    /// nothing was written.
    Cancelled,
    /// The chosen destination is outside this layer's capability.
    UnsupportedLocation,
    /// Writing to the chosen destination failed.
    WriteFailed(String),
    /// The offloaded execution itself could not run to completion.
    ExecutionFailed(String),
}

/// Outcome of re-saving to an already-known path (no dialog).
pub enum ResaveOutcome {
    /// The content was written in full, replacing any prior content.
    Saved,
    /// Writing to the path failed.
    WriteFailed(String),
}

/// What the open flow does after its picker phase: read one local path, or
/// finish at once with an outcome.
pub enum OpenStep {
    Read(String),
    Done(OpenOutcome),
}

/// What the save-as flow does after its picker phase: write to one local
/// path, or finish at once with an outcome.
pub enum SaveStep {
    Write(String),
    Done(SaveOutcome),
}

/// The step the open flow takes for a given picker outcome.
pub open spec fn spec_open_step(pick: PickedSource) -> OpenStep {
    match pick {
        PickedSource::Local(path) => OpenStep::Read(path),
        PickedSource::AbstractResource => OpenStep::Done(OpenOutcome::UnsupportedLocation),
        PickedSource::Cancelled => OpenStep::Done(OpenOutcome::Cancelled),
    }
}

/// Decides the open flow's next step from the picker outcome: a local path
/// is read; an abstract-resource source is refused as unsupported without
/// any read being attempted; cancellation finishes the flow as the distinct
/// `Cancelled` outcome, again without any read.
pub fn open_step(pick: PickedSource) -> (r: OpenStep)
    ensures
        r == spec_open_step(pick),
        pick is Cancelled ==> r == OpenStep::Done(OpenOutcome::Cancelled),
        pick is AbstractResource ==> r == OpenStep::Done(OpenOutcome::UnsupportedLocation),
        pick is Local <==> r is Read,
{
    match pick {
        PickedSource::Local(path) => OpenStep::Read(path),
        PickedSource::AbstractResource => OpenStep::Done(OpenOutcome::UnsupportedLocation),
        PickedSource::Cancelled => OpenStep::Done(OpenOutcome::Cancelled),
    }
}

/// The step the save-as flow takes for a given picker outcome.
pub open spec fn spec_save_step(pick: PickedSource) -> SaveStep {
    match pick {
        PickedSource::Local(path) => SaveStep::Write(path),
        PickedSource::AbstractResource => SaveStep::Done(SaveOutcome::UnsupportedLocation),
        PickedSource::Cancelled => SaveStep::Done(SaveOutcome::Cancelled),
    }
}

/// Decides the save-as flow's next step from the picker outcome, exactly as
/// [`open_step`] does for the open flow: no write is attempted unless the
/// user chose a plain local destination.
pub fn save_step(pick: PickedSource) -> (r: SaveStep)
    ensures
        r == spec_save_step(pick),
        pick is Cancelled ==> r == SaveStep::Done(SaveOutcome::Cancelled),
        pick is AbstractResource ==> r == SaveStep::Done(SaveOutcome::UnsupportedLocation),
        pick is Local <==> r is Write,
{
    match pick {
        PickedSource::Local(path) => SaveStep::Write(path),
        PickedSource::AbstractResource => SaveStep::Done(SaveOutcome::UnsupportedLocation),
        PickedSource::Cancelled => SaveStep::Done(SaveOutcome::Cancelled),
    }
}

/// Whether `c` separates path components.
pub open spec fn spec_is_separator(c: char) -> bool {
    c == '/' || c == '\\'
}

/// The suffix of `p` after its last path separator (all of `p` when it has
/// none).
pub open spec fn spec_after_last_separator(p: Seq<char>) -> Seq<char>
    decreases p.len(),
{
    if p.len() == 0 {
        p
    } else if spec_is_separator(p.last()) {
        Seq::empty()
    } else {
        spec_after_last_separator(p.drop_last()).push(p.last())
    }
}

/// The display name of a path: its final component, or the fixed
/// placeholder when the path has no usable final component (it is empty,
/// ends in a separator, or ends in a `.` or `..` component).
pub open spec fn spec_display_name(p: Seq<char>) -> Seq<char> {
    let tail = spec_after_last_separator(p);
    if tail.len() == 0 || tail == "."@ || tail == ".."@ {
        "不明なファイル"@
    } else {
        tail
    }
}

/// When no separator stands at or after position `k` and position `k` is
/// the start of the final component, the suffix after the last separator is
/// exactly the text from `k` on.
proof fn lemma_after_last_separator_suffix(p: Seq<char>, k: int)
    requires
        0 <= k <= p.len(),
        forall|j: int| k <= j < p.len() ==> !spec_is_separator(p[j]),
        k == 0 || spec_is_separator(p[k - 1]),
    ensures
        spec_after_last_separator(p) == p.subrange(k, p.len() as int),
    decreases p.len() - k,
{
    if k == p.len() {
        if k == 0 {
            assert(spec_after_last_separator(p) =~= p.subrange(k, p.len() as int));
        } else {
            assert(spec_is_separator(p.last()));
            assert(spec_after_last_separator(p) =~= p.subrange(k, p.len() as int));
        }
    } else {
        assert(!spec_is_separator(p.last()));
        lemma_after_last_separator_suffix(p.drop_last(), k);
        assert(p.drop_last().subrange(k, p.len() - 1) =~= p.subrange(k, p.len() - 1));
        assert(spec_after_last_separator(p) =~= p.subrange(k, p.len() as int));
    }
}

/// Whether the character is a path separator.
fn is_separator(c: char) -> (r: bool)
    ensures
        r == spec_is_separator(c),
{
    c == '/' || c == '\\'
}

/// Extracts the display name of a path: the component after the last `/` or
/// `\`, with the fixed placeholder for paths without a usable final
/// component.
pub fn display_name_of(path: &str) -> (r: String)
    ensures
        r@ == spec_display_name(path@),
{
    let n = path.unicode_len();
    // Find the start of the final component: the first position after the
    // last separator.
    let mut k: usize = n;
    while k > 0
        invariant_except_break
            k <= n,
            n == path@.len(),
            forall|j: int| k <= j < n ==> !spec_is_separator(path@[j]),
        ensures
            k <= n,
            n == path@.len(),
            forall|j: int| k <= j < n ==> !spec_is_separator(path@[j]),
            k == 0 || spec_is_separator(path@[k - 1]),
        decreases k,
    {
        if is_separator(path.get_char(k - 1)) {
            break ;
        }
        k = k - 1;
    }
    proof {
        lemma_after_last_separator_suffix(path@, k as int);
    }
    let mut tail = String::new();
    let mut i: usize = k;
    while i < n
        invariant
            k <= i <= n,
            n == path@.len(),
            tail@ == path@.subrange(k as int, i as int),
        decreases n - i,
    {
        crate::codec::push_char(&mut tail, path.get_char(i));
        proof {
            assert(path@.subrange(k as int, i as int + 1) =~= path@.subrange(
                k as int,
                i as int,
            ).push(path@[i as int]));
        }
        i = i + 1;
    }
    let empty = tail.unicode_len() == 0;
    let dot = str_eq(tail.as_str(), ".");
    let dotdot = str_eq(tail.as_str(), "..");
    if empty || dot || dotdot {
        String::from_str("不明なファイル")
    } else {
        tail
    }
}

/// Whether two text values hold the same characters.
fn str_eq(a: &str, b: &str) -> (r: bool)
    ensures
        r == (a@ == b@),
{
    let n = a.unicode_len();
    let m = b.unicode_len();
    if n != m {
        proof {
            assert(a@ != b@) by {
                if a@ == b@ {
                    assert(a@.len() == b@.len());
                }
            }
        }
        return false;
    }
    let mut i: usize = 0;
    while i < n
        invariant
            i <= n,
            n == a@.len(),
            n == b@.len(),
            forall|j: int| 0 <= j < i ==> a@[j] == b@[j],
        decreases n - i,
    {
        if a.get_char(i) != b.get_char(i) {
            return false;
        }
        i = i + 1;
    }
    proof {
        assert(a@ =~= b@);
    }
    true
}

/// One named filter group offered by a picker dialog.
pub struct FileFilter {
    /// The label the dialog shows for the group.
    pub name: String,
    /// The file-name extensions the group admits; `*` admits everything.
    pub extensions: Vec<String>,
}

/// The extensions of the text-like filter group, in order.
pub open spec fn spec_text_like_extensions() -> Seq<Seq<char>> {
    seq!["txt"@, "md"@, "json"@, "js"@, "ts"@, "jsx"@, "tsx"@, "html"@, "css"@, "xml"@]
}

/// Builds the filter set every picker invocation offers: the text-like
/// group with its ten extensions, then the all-files wildcard group, in
/// that order.
pub fn picker_filters() -> (r: Vec<FileFilter>)
    ensures
        r@.len() == 2,
        r@[0].name@ == "テキストファイル"@,
        r@[0].extensions.deep_view() == spec_text_like_extensions(),
        r@[1].name@ == "すべてのファイル"@,
        r@[1].extensions.deep_view() == seq!["*"@],
{
    let mut text_ext: Vec<String> = Vec::new();
    text_ext.push(String::from_str("txt"));
    text_ext.push(String::from_str("md"));
    text_ext.push(String::from_str("json"));
    text_ext.push(String::from_str("js"));
    text_ext.push(String::from_str("ts"));
    text_ext.push(String::from_str("jsx"));
    text_ext.push(String::from_str("tsx"));
    text_ext.push(String::from_str("html"));
    text_ext.push(String::from_str("css"));
    text_ext.push(String::from_str("xml"));
    proof {
        assert(text_ext.deep_view() =~= spec_text_like_extensions());
    }
    let mut all_ext: Vec<String> = Vec::new();
    all_ext.push(String::from_str("*"));
    proof {
        assert(all_ext.deep_view() =~= seq!["*"@]);
    }
    let mut r: Vec<FileFilter> = Vec::new();
    r.push(FileFilter { name: String::from_str("テキストファイル"), extensions: text_ext });
    r.push(FileFilter { name: String::from_str("すべてのファイル"), extensions: all_ext });
    r
}

/// The file name a save picker is pre-populated with.
pub fn default_save_file_name() -> (r: String)
    ensures
        r@ == "untitled.txt"@,
{
    String::from_str("untitled.txt")
}

/// Finishes the open flow once the chosen path has been read: a successful
/// read yields the content together with the path's display name; a failed
/// read yields `ReadFailed` carrying the underlying reason.
pub fn finish_open(path: &str, read: Result<String, String>) -> (r: OpenOutcome)
    ensures
        read matches Ok(content) ==> (r matches OpenOutcome::Opened {
            content: c,
            display_name: d,
        } && c == content && d@ == spec_display_name(path@)),
        read matches Err(reason) ==> r == OpenOutcome::ReadFailed(reason),
{
    match read {
        Ok(content) => OpenOutcome::Opened { content, display_name: display_name_of(path) },
        Err(reason) => OpenOutcome::ReadFailed(reason),
    }
}

/// Finishes the save-as flow once the write to the chosen path has run: a
/// successful write yields the chosen absolute path; a failed write yields
/// `WriteFailed` carrying the underlying reason.
pub fn finish_save_as(path: String, write: Result<(), String>) -> (r: SaveOutcome)
    ensures
        write is Ok ==> r == SaveOutcome::Saved(path),
        write matches Err(reason) ==> r == SaveOutcome::WriteFailed(reason),
{
    match write {
        Ok(_) => SaveOutcome::Saved(path),
        Err(reason) => SaveOutcome::WriteFailed(reason),
    }
}

/// Finishes a re-save to an already-known path: success or `WriteFailed`
/// with the underlying reason; full overwrite, never an append.
pub fn finish_resave(write: Result<(), String>) -> (r: ResaveOutcome)
    ensures
        write is Ok ==> r == ResaveOutcome::Saved,
        write matches Err(reason) ==> r == ResaveOutcome::WriteFailed(reason),
{
    match write {
        Ok(_) => ResaveOutcome::Saved,
        Err(reason) => ResaveOutcome::WriteFailed(reason),
    }
}

} // verus!
