//! Frames of an animation and how they come out of the downloaded archive.

use crate::pixiv::client::{ugoira_meta_url, ugoira_meta_url_text};
use crate::pixiv::types::{IllustId, UgoiraDelay, UgoiraMeta, UgoiraMetaFrame};
use std::io::Cursor;
use vstd::prelude::*;
use zip::ZipArchive;

verus! {

/// One frame of an animation: the name of its image file, the image, and
/// how long it is shown.
#[derive(Debug)]
pub struct UgoiraFrame {
    pub file: String,
    pub data: Vec<u8>,
    pub delay: UgoiraDelay,
}

/// `std::io::Cursor`, the reader that an archive in memory is read through.
#[verifier::external_type_specification]
#[verifier::external_body]
#[verifier::reject_recursive_types(T)]
pub struct ExCursor<T>(Cursor<T>);

/// `zip::ZipArchive`, an opened archive.
#[verifier::external_type_specification]
#[verifier::external_body]
#[verifier::reject_recursive_types(R)]
pub struct ExZipArchive<R>(ZipArchive<R>);

/// The entries of an opened archive that can be read without a password,
/// each with its unpacked content, by name.
pub uninterp spec fn archive_entries(archive: ZipArchive<Cursor<Vec<u8>>>) -> Map<
    Seq<char>,
    Seq<u8>,
>;

/// The readable entries of the archive that the bytes `data` hold, or
/// `None` where `data` cannot be opened as an archive.
pub uninterp spec fn zip_entries(data: Seq<u8>) -> Option<Map<Seq<char>, Seq<u8>>>;

/// Opens an archive held in memory with `ZipArchive::new`, which reads the
/// directory at the end of the data. Whether that succeeds and what the
/// archive then holds depends on the bytes alone. The error is the `zip`
/// crate's message.
#[verifier::external_body]
pub(crate) fn open_archive(data: Vec<u8>) -> (result: Result<ZipArchive<Cursor<Vec<u8>>>, String>)
    ensures
        match result {
            Ok(archive) => zip_entries(data@) == Some(archive_entries(archive)),
            Err(_) => zip_entries(data@) is None,
        },
{
    match ZipArchive::new(Cursor::new(data)) {
        Ok(archive) => Ok(archive),
        Err(e) => Err(e.to_string()),
    }
}

/// Looks an entry up with `ZipArchive::by_name_decrypt`, giving the empty
/// password, and reads it to its end. Unlike `by_name`, that call hands
/// back every refusal, the one of an entry that wants a password too.
/// The archive holds afterwards what it held before; the entry's content
/// comes back where the archive has a readable entry of that name, and
/// the `zip` crate's or the reader's message where it has not.
#[verifier::external_body]
pub(crate) fn read_entry(archive: &mut ZipArchive<Cursor<Vec<u8>>>, name: &str) -> (result: Result<
    Vec<u8>,
    String,
>)
    ensures
        archive_entries(*final(archive)) == archive_entries(*old(archive)),
        match result {
            Ok(content) => archive_entries(*old(archive)).contains_key(name@) && archive_entries(
                *old(archive),
            )[name@] == content@,
            Err(_) => !archive_entries(*old(archive)).contains_key(name@),
        },
{
    let mut file = match archive.by_name_decrypt(name, &[]) {
        Ok(Ok(file)) => file,
        Ok(Err(e)) => return Err(e.to_string()),
        Err(e) => return Err(e.to_string()),
    };
    let mut content = Vec::new();
    match std::io::Read::read_to_end(&mut file, &mut content) {
        Ok(_) => Ok(content),
        Err(e) => Err(e.to_string()),
    }
}

/// Why an archive did not give the frames that the metadata lists.
#[derive(Debug)]
pub enum ExtractError {
    /// The data is no archive that can be opened.
    InvalidArchive { reason: String },
    /// The archive has no readable entry for the frame at `index`.
    Entry { index: usize, reason: String },
}

/// Whether the archive content `entries` has an entry for each of the
/// first `count` frames of the metadata.
pub open spec fn has_entries(
    entries: Map<Seq<char>, Seq<u8>>,
    frames: Seq<UgoiraMetaFrame>,
    count: int,
) -> bool {
    forall|i: int| 0 <= i < count ==> entries.contains_key((#[trigger] frames[i]).file@)
}

/// Whether `out` holds, in the order of the metadata, the first
/// `out.len()` frames with their content from `entries`.
pub open spec fn frames_match(
    out: Seq<UgoiraFrame>,
    entries: Map<Seq<char>, Seq<u8>>,
    frames: Seq<UgoiraMetaFrame>,
) -> bool {
    &&& out.len() <= frames.len()
    &&& forall|i: int|
        0 <= i < out.len() ==> {
            &&& (#[trigger] out[i]).file@ == frames[i].file@
            &&& out[i].delay == frames[i].delay
            &&& entries.contains_key(frames[i].file@)
            &&& out[i].data@ == entries[frames[i].file@]
        }
}

/// What extraction from an archive with the content `entries` has to give
/// for the metadata `frames`.
pub open spec fn extraction_ok(
    result: Result<Vec<UgoiraFrame>, ExtractError>,
    entries: Map<Seq<char>, Seq<u8>>,
    frames: Seq<UgoiraMetaFrame>,
) -> bool {
    match result {
        Ok(out) => out@.len() == frames.len() && frames_match(out@, entries, frames),
        Err(ExtractError::Entry { index, .. }) => {
            &&& index < frames.len()
            &&& !entries.contains_key(frames[index as int].file@)
            &&& has_entries(entries, frames, index as int)
        },
        Err(ExtractError::InvalidArchive { .. }) => false,
    }
}

/// Frames that were taken from an archive had their entries there.
proof fn lemma_matched_frames_have_entries(
    out: Seq<UgoiraFrame>,
    entries: Map<Seq<char>, Seq<u8>>,
    frames: Seq<UgoiraMetaFrame>,
)
    requires
        frames_match(out, entries, frames),
    ensures
        has_entries(entries, frames, out.len() as int),
{
    assert forall|i: int| 0 <= i < out.len() implies entries.contains_key(
        (#[trigger] frames[i]).file@,
    ) by {
        assert(out[i].file@ == frames[i].file@);
    }
}

/// Takes the frames that the metadata lists out of an opened archive.
///
/// The frames come in the order of the metadata, each with the name and
/// the delay that the metadata gives it and the content of the archive's
/// entry of that name. The first frame without a readable entry fails the
/// extraction.
pub fn frames_from_archive(
    frames: &Vec<UgoiraMetaFrame>,
    archive: &mut ZipArchive<Cursor<Vec<u8>>>,
) -> (result: Result<Vec<UgoiraFrame>, ExtractError>)
    ensures
        archive_entries(*final(archive)) == archive_entries(*old(archive)),
        extraction_ok(result, archive_entries(*old(archive)), frames@),
        result is Ok <==> has_entries(archive_entries(*old(archive)), frames@, frames@.len() as int),
{
    let ghost entries = archive_entries(*archive);
    let mut out: Vec<UgoiraFrame> = Vec::new();
    let mut index: usize = 0;
    while index < frames.len()
        invariant
            index <= frames@.len(),
            out@.len() == index,
            archive_entries(*archive) == entries,
            entries == archive_entries(*old(archive)),
            frames_match(out@, entries, frames@),
        decreases frames@.len() - index,
    {
        let frame = &frames[index];
        match read_entry(archive, frame.file.as_str()) {
            Ok(data) => {
                out.push(UgoiraFrame { file: frame.file.clone(), data, delay: frame.delay });
            },
            Err(reason) => {
                proof {
                    lemma_matched_frames_have_entries(out@, entries, frames@);
                }
                return Err(ExtractError::Entry { index, reason });
            },
        }
        index += 1;
    }
    proof {
        lemma_matched_frames_have_entries(out@, entries, frames@);
    }
    Ok(out)
}

/// Unpacks the downloaded archive `data` into the frames that the metadata
/// lists.
///
/// Fails where the data is no archive, and else as `frames_from_archive`
/// does.
pub fn extract_frames(frames: &Vec<UgoiraMetaFrame>, data: Vec<u8>) -> (result: Result<
    Vec<UgoiraFrame>,
    ExtractError,
>)
    ensures
        match zip_entries(data@) {
            None => result matches Err(ExtractError::InvalidArchive { .. }),
            Some(entries) => {
                &&& extraction_ok(result, entries, frames@)
                &&& result is Ok <==> has_entries(entries, frames@, frames@.len() as int)
            },
        },
{
    match open_archive(data) {
        Ok(archive) => {
            let mut archive = archive;
            frames_from_archive(frames, &mut archive)
        },
        Err(reason) => Err(ExtractError::InvalidArchive { reason }),
    }
}

/// What decides whether frames make an animation: the file name and the
/// delay of each.
pub trait Timed {
    /// The name of the frame's file.
    spec fn name(&self) -> Seq<char>;

    /// The frame's delay in milliseconds.
    spec fn millis(&self) -> nat;
}

impl Timed for UgoiraFrame {
    open spec fn name(&self) -> Seq<char> {
        self.file@
    }

    open spec fn millis(&self) -> nat {
        self.delay.0 as nat
    }
}

impl Timed for UgoiraMetaFrame {
    open spec fn name(&self) -> Seq<char> {
        self.file@
    }

    open spec fn millis(&self) -> nat {
        self.delay.0 as nat
    }
}

/// The delays of all frames together, in milliseconds.
pub open spec fn total_delay<F: Timed>(frames: Seq<F>) -> nat
    decreases frames.len(),
{
    if frames.len() == 0 {
        0
    } else {
        total_delay(frames.drop_last()) + frames.last().millis()
    }
}

/// No two frames share a file name.
pub open spec fn distinct_names<F: Timed>(frames: Seq<F>) -> bool {
    forall|i: int, j: int|
        0 <= i < j < frames.len() ==> (#[trigger] frames[i]).name() != (#[trigger] frames[j]).name()
}

/// Every frame is shown for some time.
pub open spec fn positive_delays<F: Timed>(frames: Seq<F>) -> bool {
    forall|i: int| 0 <= i < frames.len() ==> (#[trigger] frames[i]).millis() > 0
}

/// What makes a sequence of frames an animation: there is a frame, every
/// frame is shown for some time, every frame has a file name of its own,
/// and the whole lasts no longer than a `u32` counts milliseconds.
pub open spec fn valid_frame_set<F: Timed>(frames: Seq<F>) -> bool {
    &&& frames.len() >= 1
    &&& positive_delays(frames)
    &&& distinct_names(frames)
    &&& total_delay(frames) <= u32::MAX
}

/// Why a sequence of frames is no animation.
#[derive(Clone, Copy, Debug, PartialEq, Eq, Structural)]
pub enum FrameSetError {
    /// There is no frame.
    Empty,
    /// The frame at `index` is shown for no time at all.
    ZeroDelay { index: usize },
    /// The frames together last longer than a `u32` counts milliseconds.
    TooLong,
    /// The frame at `index` has the file name of an earlier frame.
    DuplicateName { index: usize },
}

/// Whether the name of the frame at `index` also belongs to an earlier frame.
pub open spec fn repeats_earlier_name<F: Timed>(frames: Seq<F>, index: int) -> bool {
    exists|k: int| 0 <= k < index && (#[trigger] frames[k]).name() == frames[index].name()
}

/// Whether `defect` is what is wrong with `frames`. The defects are looked
/// for in a fixed order, and each names the first place where it shows: no
/// frame at all; else the first frame without delay; else too long a
/// total; else the first frame that repeats an earlier name.
pub open spec fn frame_set_defect<F: Timed>(frames: Seq<F>, defect: FrameSetError) -> bool {
    match defect {
        FrameSetError::Empty => frames.len() == 0,
        FrameSetError::ZeroDelay { index } => {
            &&& index < frames.len()
            &&& frames[index as int].millis() == 0
            &&& forall|i: int| 0 <= i < index ==> (#[trigger] frames[i]).millis() > 0
        },
        FrameSetError::TooLong => {
            &&& frames.len() > 0
            &&& positive_delays(frames)
            &&& total_delay(frames) > u32::MAX
        },
        FrameSetError::DuplicateName { index } => {
            &&& index < frames.len()
            &&& positive_delays(frames)
            &&& total_delay(frames) <= u32::MAX
            &&& repeats_earlier_name(frames, index as int)
            &&& distinct_names(frames.take(index as int))
        },
    }
}

/// Whether two sequences list the same names and delays in the same order.
pub open spec fn same_timing<A: Timed, B: Timed>(a: Seq<A>, b: Seq<B>) -> bool {
    &&& a.len() == b.len()
    &&& forall|i: int|
        0 <= i < a.len() ==> (#[trigger] a[i]).name() == b[i].name() && a[i].millis()
            == b[i].millis()
}

/// A prefix of an animation lasts no longer than the whole, and an animation
/// of frames that are all shown for some time lasts at least a millisecond
/// per frame.
pub proof fn lemma_total_delay_prefix<F: Timed>(frames: Seq<F>, n: int)
    requires
        0 <= n <= frames.len(),
    ensures
        total_delay(frames.take(n)) <= total_delay(frames),
        n < frames.len() ==> total_delay(frames.take(n + 1)) == total_delay(frames.take(n))
            + frames[n].millis(),
        positive_delays(frames) ==> frames.len() <= total_delay(frames),
    decreases frames.len() - n,
{
    if n == frames.len() {
        assert(frames.take(n) =~= frames);
        lemma_total_delay_count(frames);
    } else {
        lemma_total_delay_prefix(frames, n + 1);
        assert(frames.take(n + 1).drop_last() =~= frames.take(n));
        assert(frames.take(n + 1).last() == frames[n]);
    }
}

proof fn lemma_total_delay_count<F: Timed>(frames: Seq<F>)
    ensures
        positive_delays(frames) ==> frames.len() <= total_delay(frames),
    decreases frames.len(),
{
    if frames.len() > 0 && positive_delays(frames) {
        let init = frames.drop_last();
        assert forall|i: int| 0 <= i < init.len() implies (#[trigger] init[i]).millis() > 0 by {
            assert(init[i] == frames[i]);
        }
        lemma_total_delay_count(init);
        assert(frames.last() == frames[frames.len() - 1]);
    }
}

/// What holds of one listing of names and delays holds of every other
/// listing of the same names and delays.
proof fn lemma_timing_carries<A: Timed, B: Timed>(a: Seq<A>, b: Seq<B>)
    requires
        same_timing(a, b),
    ensures
        same_timing(b, a),
        total_delay(a) == total_delay(b),
        positive_delays(a) ==> positive_delays(b),
        distinct_names(a) ==> distinct_names(b),
    decreases a.len(),
{
    assert forall|i: int| 0 <= i < b.len() implies (#[trigger] b[i]).name() == a[i].name()
        && b[i].millis() == a[i].millis() by {
        assert(a[i].name() == b[i].name());
    }
    if a.len() > 0 {
        let a0 = a.drop_last();
        let b0 = b.drop_last();
        assert forall|i: int| 0 <= i < a0.len() implies (#[trigger] a0[i]).name() == b0[i].name()
            && a0[i].millis() == b0[i].millis() by {
            assert(a0[i] == a[i]);
            assert(b0[i] == b[i]);
        }
        lemma_timing_carries(a0, b0);
        assert(a.last() == a[a.len() - 1]);
        assert(b.last() == b[b.len() - 1]);
    }
    if positive_delays(a) {
        assert forall|i: int| 0 <= i < b.len() implies (#[trigger] b[i]).millis() > 0 by {
            assert(a[i].millis() > 0);
        }
    }
    if distinct_names(a) {
        assert forall|i: int, j: int| 0 <= i < j < b.len() implies (#[trigger] b[i]).name() != (
        #[trigger] b[j]).name() by {
            assert(a[i].name() != a[j].name());
        }
    }
}

proof fn lemma_defect_carries<A: Timed, B: Timed>(a: Seq<A>, b: Seq<B>, defect: FrameSetError)
    requires
        same_timing(a, b),
        frame_set_defect(a, defect),
    ensures
        frame_set_defect(b, defect),
{
    lemma_timing_carries(a, b);
    match defect {
        FrameSetError::Empty => {},
        FrameSetError::ZeroDelay { index } => {
            assert(a[index as int].millis() == b[index as int].millis());
            assert forall|i: int| 0 <= i < index implies (#[trigger] b[i]).millis() > 0 by {
                assert(a[i].millis() > 0);
            }
        },
        FrameSetError::TooLong => {},
        FrameSetError::DuplicateName { index } => {
            let k = choose|k: int|
                0 <= k < index && (#[trigger] a[k]).name() == a[index as int].name();
            assert(a[index as int].name() == b[index as int].name());
            assert(b[k].name() == b[index as int].name());
            let at = a.take(index as int);
            let bt = b.take(index as int);
            assert forall|i: int| 0 <= i < at.len() implies (#[trigger] at[i]).name()
                == bt[i].name() && at[i].millis() == bt[i].millis() by {
                assert(at[i] == a[i]);
                assert(bt[i] == b[i]);
            }
            lemma_timing_carries(at, bt);
        },
    }
}

/// Whether frames are an animation, and what is wrong if they are not,
/// depends on their names and delays alone.
pub proof fn lemma_same_timing<A: Timed, B: Timed>(a: Seq<A>, b: Seq<B>)
    requires
        same_timing(a, b),
    ensures
        total_delay(a) == total_delay(b),
        valid_frame_set(a) <==> valid_frame_set(b),
        forall|defect: FrameSetError| #[trigger]
            frame_set_defect(a, defect) <==> frame_set_defect(b, defect),
{
    lemma_timing_carries(a, b);
    lemma_timing_carries(b, a);
    assert forall|defect: FrameSetError| #[trigger]
        frame_set_defect(a, defect) <==> frame_set_defect(b, defect) by {
        if frame_set_defect(a, defect) {
            lemma_defect_carries(a, b, defect);
        }
        if frame_set_defect(b, defect) {
            lemma_defect_carries(b, a, defect);
        }
    }
}

/// Frames with a defect are no animation, and they have no second defect.
pub proof fn lemma_defect_unique<F: Timed>(frames: Seq<F>, first: FrameSetError, second: FrameSetError)
    requires
        frame_set_defect(frames, first),
    ensures
        !valid_frame_set(frames),
        frame_set_defect(frames, second) ==> first == second,
{
    match first {
        FrameSetError::ZeroDelay { index } => {
            assert(frames[index as int].millis() == 0);
        },
        FrameSetError::DuplicateName { index } => {
            let k = choose|k: int|
                0 <= k < index && (#[trigger] frames[k]).name() == frames[index as int].name();
            assert(frames[k].name() == frames[index as int].name());
        },
        _ => {},
    }
    if frame_set_defect(frames, second) {
        match (first, second) {
            (FrameSetError::ZeroDelay { index: i }, FrameSetError::ZeroDelay { index: j }) => {
                if i < j {
                    assert(frames[i as int].millis() > 0);
                } else if j < i {
                    assert(frames[j as int].millis() > 0);
                }
            },
            (FrameSetError::ZeroDelay { index }, _) => {
                assert(frames[index as int].millis() == 0);
            },
            (_, FrameSetError::ZeroDelay { index }) => {
                assert(frames[index as int].millis() == 0);
            },
            (
                FrameSetError::DuplicateName { index: i },
                FrameSetError::DuplicateName { index: j },
            ) => {
                if i < j {
                    lemma_repeat_breaks_prefix(frames, i as int, j as int);
                } else if j < i {
                    lemma_repeat_breaks_prefix(frames, j as int, i as int);
                }
            },
            _ => {},
        }
    }
}

proof fn lemma_repeat_breaks_prefix<F: Timed>(frames: Seq<F>, i: int, j: int)
    requires
        0 <= i < j <= frames.len(),
        repeats_earlier_name(frames, i),
    ensures
        !distinct_names(frames.take(j)),
{
    let k = choose|k: int| 0 <= k < i && (#[trigger] frames[k]).name() == frames[i].name();
    let prefix = frames.take(j);
    assert(prefix[k] == frames[k]);
    assert(prefix[i] == frames[i]);
    assert(prefix[k].name() == prefix[i].name());
}

/// Decides whether `frames` are an animation, and names the defect if they
/// are not.
pub fn check_frame_set(frames: &Vec<UgoiraFrame>) -> (result: Result<(), FrameSetError>)
    ensures
        result is Ok <==> valid_frame_set(frames@),
        result matches Err(defect) ==> frame_set_defect(frames@, defect),
{
    let count = frames.len();
    if count == 0 {
        return Err(FrameSetError::Empty);
    }
    let mut index: usize = 0;
    while index < count
        invariant
            count == frames@.len(),
            index <= count,
            forall|i: int| 0 <= i < index ==> (#[trigger] frames@[i]).millis() > 0,
        decreases count - index,
    {
        if frames[index].delay.0 == 0 {
            return Err(FrameSetError::ZeroDelay { index });
        }
        index += 1;
    }
    assert(positive_delays(frames@));
    let mut total: u32 = 0;
    index = 0;
    while index < count
        invariant
            count == frames@.len(),
            count > 0,
            index <= count,
            positive_delays(frames@),
            total == total_delay(frames@.take(index as int)),
        decreases count - index,
    {
        proof {
            lemma_total_delay_prefix(frames@, index as int);
            lemma_total_delay_prefix(frames@, index + 1);
        }
        match total.checked_add(frames[index].delay.0) {
            Some(sum) => {
                total = sum;
            },
            None => {
                return Err(FrameSetError::TooLong);
            },
        }
        index += 1;
    }
    assert(frames@.take(count as int) =~= frames@);
    index = 0;
    while index < count
        invariant
            count == frames@.len(),
            count > 0,
            index <= count,
            positive_delays(frames@),
            total_delay(frames@) <= u32::MAX,
            distinct_names(frames@.take(index as int)),
        decreases count - index,
    {
        let mut earlier: usize = 0;
        while earlier < index
            invariant
                count == frames@.len(),
                earlier <= index < count,
                positive_delays(frames@),
                total_delay(frames@) <= u32::MAX,
                distinct_names(frames@.take(index as int)),
                forall|k: int|
                    0 <= k < earlier ==> (#[trigger] frames@[k]).name()
                        != frames@[index as int].name(),
            decreases index - earlier,
        {
            if frames[earlier].file == frames[index].file {
                return Err(FrameSetError::DuplicateName { index });
            }
            earlier += 1;
        }
        assert(distinct_names(frames@.take(index + 1))) by {
            let longer = frames@.take(index + 1);
            let shorter = frames@.take(index as int);
            assert forall|i: int, j: int| 0 <= i < j < longer.len() implies (
            #[trigger] longer[i]).name() != (#[trigger] longer[j]).name() by {
                if j < index {
                    assert(shorter[i] == longer[i] && shorter[j] == longer[j]);
                } else {
                    assert(longer[i] == frames@[i]);
                }
            }
        }
        index += 1;
    }
    Ok(())
}

/// Why the frames of an illustration could not be had.
#[derive(Debug)]
pub enum AcquireError {
    /// The metadata could not be fetched or read.
    Metadata(String),
    /// The archive could not be downloaded.
    Download(String),
    /// The archive did not give the frames that the metadata lists.
    FrameExtraction(ExtractError),
    /// The archive gave the frames, but they are no animation.
    FrameSet(FrameSetError),
}

/// What an acquisition from an archive with the content `entries` has to
/// give for the metadata `frames`: the frames, where the archive has them
/// all and they are an animation; the first missing entry, where one is
/// missing; else what is wrong with the frames.
pub open spec fn acquisition_ok(
    result: Result<Vec<UgoiraFrame>, AcquireError>,
    entries: Map<Seq<char>, Seq<u8>>,
    frames: Seq<UgoiraMetaFrame>,
) -> bool {
    match result {
        Ok(out) => {
            &&& has_entries(entries, frames, frames.len() as int)
            &&& valid_frame_set(frames)
            &&& out@.len() == frames.len()
            &&& frames_match(out@, entries, frames)
            &&& valid_frame_set(out@)
        },
        Err(AcquireError::FrameExtraction(e)) => {
            &&& !has_entries(entries, frames, frames.len() as int)
            &&& extraction_ok(Err(e), entries, frames)
        },
        Err(AcquireError::FrameSet(defect)) => {
            &&& has_entries(entries, frames, frames.len() as int)
            &&& !valid_frame_set(frames)
            &&& frame_set_defect(frames, defect)
        },
        Err(_) => false,
    }
}

/// What to download for an illustration, and the frames to take from it.
#[derive(Debug)]
pub struct Download {
    /// Where the archive is stored.
    pub source: String,
    pub frames: Vec<UgoiraMetaFrame>,
}

/// Gets the frames of one illustration: first its metadata, then the
/// archive that the metadata names, then the frames out of the archive.
/// One attempt each; the first failure ends it.
#[derive(Clone, Copy, Debug)]
pub struct UgoiraDataProvider {
    pub illust_id: IllustId,
}

impl UgoiraDataProvider {
    /// A provider of the frames of the illustration `illust_id`.
    pub fn new(illust_id: IllustId) -> (provider: Self)
        ensures
            provider.illust_id == illust_id,
    {
        UgoiraDataProvider { illust_id }
    }

    /// The address of the metadata, which is fetched first.
    pub fn request(&self) -> (url: String)
        ensures
            url@ == ugoira_meta_url_text(self.illust_id),
    {
        ugoira_meta_url(self.illust_id)
    }

    /// What follows the answer to the metadata request: the download of
    /// the archive it names, or the end of the attempt.
    pub fn download(&self, answer: Result<UgoiraMeta, String>) -> (step: Result<
        Download,
        AcquireError,
    >)
        ensures
            match answer {
                Ok(meta) => step matches Ok(download) && download.source == meta.original_src
                    && download.frames == meta.frames,
                Err(reason) => step matches Err(AcquireError::Metadata(r)) && r == reason,
            },
    {
        match answer {
            Ok(meta) => Ok(Download { source: meta.original_src, frames: meta.frames }),
            Err(reason) => Err(AcquireError::Metadata(reason)),
        }
    }

    /// What follows the download: the frames, in the order of the
    /// metadata, or the end of the attempt. A failed download ends it, and
    /// so does an archive that cannot be opened or lacks a frame, and so do
    /// frames that are no animation: what comes back as a success has at
    /// least one frame, a delay for every frame, and no file name twice.
    pub fn into(self, frames: &Vec<UgoiraMetaFrame>, downloaded: Result<Vec<u8>, String>) -> (result:
        Result<Vec<UgoiraFrame>, AcquireError>)
        ensures
            result matches Ok(out) ==> valid_frame_set(out@),
            match downloaded {
                Err(reason) => result matches Err(AcquireError::Download(r)) && r == reason,
                Ok(data) => match zip_entries(data@) {
                    None => result matches Err(
                        AcquireError::FrameExtraction(ExtractError::InvalidArchive { .. }),
                    ),
                    Some(entries) => {
                        &&& acquisition_ok(result, entries, frames@)
                        &&& result is Ok <==> has_entries(entries, frames@, frames@.len() as int)
                            && valid_frame_set(frames@)
                        &&& (result matches Err(AcquireError::FrameExtraction(_))) <==> !has_entries(
                            entries,
                            frames@,
                            frames@.len() as int,
                        )
                        &&& (result matches Err(AcquireError::FrameSet(_))) <==> has_entries(
                            entries,
                            frames@,
                            frames@.len() as int,
                        ) && !valid_frame_set(frames@)
                    },
                },
            },
    {
        match downloaded {
            Err(reason) => Err(AcquireError::Download(reason)),
            Ok(data) => match extract_frames(frames, data) {
                Ok(out) => {
                    proof {
                        assert(same_timing(out@, frames@));
                        lemma_same_timing(out@, frames@);
                    }
                    match check_frame_set(&out) {
                        Ok(()) => Ok(out),
                        Err(defect) => {
                            proof {
                                lemma_defect_unique(frames@, defect, defect);
                            }
                            Err(AcquireError::FrameSet(defect))
                        },
                    }
                },
                Err(e) => Err(AcquireError::FrameExtraction(e)),
            },
        }
    }
}

} // verus!
