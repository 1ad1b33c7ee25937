//! How results travel from stage to stage: every result carries the
//! identifier it belongs to, a success goes on to the next stage under that
//! identifier, and a failure is reported and goes nowhere.

use crate::encoder::{CommandLine, EncodeParams, UgoiraEncoder};
use crate::pixiv::types::IllustId;
use crate::save::{file_name_text, SaveParams, UgoiraSaver};
use crate::text::{decimal, push_decimal};
use crate::ugoira::UgoiraFrame;
use vstd::prelude::*;
use vstd::string::StringExecFns;

verus! {

/// The output format of a run.
#[derive(Clone, Copy, Debug, PartialEq, Eq, Structural)]
pub enum Format {
    Webm,
    Gif,
}

impl Default for Format {
    /// A run without a chosen format makes GIFs.
    fn default() -> (format: Format)
        ensures
            format == Format::Gif,
    {
        Format::Gif
    }
}

impl EncodeParams for Format {
    open spec fn arguments(&self) -> Seq<Seq<char>> {
        match self {
            Format::Webm => crate::encoder::WebmParams.arguments(),
            Format::Gif => crate::encoder::GifParams.arguments(),
        }
    }

    fn inspect_cmd(&self, cmd: &mut CommandLine) {
        match self {
            Format::Webm => crate::encoder::WebmParams.inspect_cmd(cmd),
            Format::Gif => crate::encoder::GifParams.inspect_cmd(cmd),
        }
    }
}

impl SaveParams for Format {
    open spec fn extension(&self) -> Seq<char> {
        match self {
            Format::Webm => crate::save::WebmParams.extension(),
            Format::Gif => crate::save::GifParams.extension(),
        }
    }

    fn get_extension(&self) -> (ext: &'static str) {
        match self {
            Format::Webm => crate::save::WebmParams.get_extension(),
            Format::Gif => crate::save::GifParams.get_extension(),
        }
    }
}

/// A line for the person who runs the program.
#[derive(Debug)]
pub struct Report {
    /// Whether the line tells of a failure, and so belongs on the error
    /// output.
    pub failure: bool,
    pub text: String,
}

/// What becomes of one result: the line to print, and what goes on to the
/// next stage, if anything does.
#[derive(Debug)]
pub struct Routed<T> {
    pub report: Report,
    pub forward: Option<T>,
}

/// The line that tells of an illustration entering the queue `queue`.
pub open spec fn queued_text(key: IllustId, queue: Seq<char>) -> Seq<char> {
    "Added illustration "@ + decimal(key.0 as nat) + " to "@ + queue + " queue"@
}

/// The line that tells of an illustration leaving the last stage.
pub open spec fn finished_text(key: IllustId) -> Seq<char> {
    "Finished processing illustration "@ + decimal(key.0 as nat)
}

/// The line that tells of a failed discovery.
pub open spec fn discovery_failure_text(reason: Seq<char>) -> Seq<char> {
    "Error while obtaining illustration id: "@ + reason
}

/// The line that tells of a failure to get an illustration's frames.
pub open spec fn acquire_failure_text(key: IllustId, reason: Seq<char>) -> Seq<char> {
    "Error while obtaining illustration "@ + decimal(key.0 as nat) + " ugoira frames: "@ + reason
}

/// The line that tells of a failure to encode an illustration.
pub open spec fn encode_failure_text(key: IllustId, reason: Seq<char>) -> Seq<char> {
    "Error while encoding illustration "@ + decimal(key.0 as nat) + ": "@ + reason
}

/// The line that tells of a failure to store an illustration.
pub open spec fn save_failure_text(key: IllustId, reason: Seq<char>) -> Seq<char> {
    "Error while saving illustration "@ + decimal(key.0 as nat) + ": "@ + reason
}

/// `before`, the identifier in decimal, `after`, and `tail`.
fn keyed_text(before: &str, key: IllustId, after: &str, tail: &str) -> (text: String)
    ensures
        text@ == before@ + decimal(key.0 as nat) + after@ + tail@,
{
    let mut text = String::from_str(before);
    push_decimal(&mut text, key.0 as u64);
    text.append(after);
    text.append(tail);
    text
}

/// The decisions between the stages of one run.
#[derive(Clone, Copy, Debug)]
pub struct Pipeline {
    pub format: Format,
}

impl Pipeline {
    /// The pipeline of a run with the output format `format`.
    pub fn new(format: Format) -> (pipeline: Self)
        ensures
            pipeline.format == format,
    {
        Pipeline { format }
    }

    /// Routes what the discovery yielded. An identifier becomes its own
    /// key and goes on to have its frames fetched; a failure is reported.
    pub fn discovered(&self, found: Result<IllustId, String>) -> (routed: Routed<
        (IllustId, IllustId),
    >)
        ensures
            match found {
                Ok(id) => {
                    &&& !routed.report.failure
                    &&& routed.report.text@ == queued_text(id, "download"@)
                    &&& routed.forward == Some((id, id))
                },
                Err(reason) => {
                    &&& routed.report.failure
                    &&& routed.report.text@ == discovery_failure_text(reason@)
                    &&& routed.forward is None
                },
            },
    {
        match found {
            Ok(id) => {
                let text = keyed_text("Added illustration ", id, " to ", "download");
                let text = text.concat(" queue");
                Routed { report: Report { failure: false, text }, forward: Some((id, id)) }
            },
            Err(reason) => {
                let text = String::from_str("Error while obtaining illustration id: ");
                let text = text.concat(reason.as_str());
                Routed { report: Report { failure: true, text }, forward: None }
            },
        }
    }

    /// Routes the outcome of fetching the frames of `key`. Frames go on to
    /// the encoder together with the run's format, under the same key; a
    /// failure is reported.
    pub fn acquired(&self, key: IllustId, outcome: Result<Vec<UgoiraFrame>, String>) -> (routed:
        Routed<(IllustId, UgoiraEncoder<Format>)>)
        ensures
            match outcome {
                Ok(frames) => {
                    &&& !routed.report.failure
                    &&& routed.report.text@ == queued_text(key, "encode"@)
                    &&& routed.forward matches Some((forwarded_key, encoder))
                    &&& forwarded_key == key
                    &&& encoder.data == frames
                    &&& encoder.params == self.format
                },
                Err(reason) => {
                    &&& routed.report.failure
                    &&& routed.report.text@ == acquire_failure_text(key, reason@)
                    &&& routed.forward is None
                },
            },
    {
        match outcome {
            Ok(frames) => {
                let text = keyed_text("Added illustration ", key, " to ", "encode");
                let text = text.concat(" queue");
                let encoder = UgoiraEncoder::new(frames, self.format);
                Routed { report: Report { failure: false, text }, forward: Some((key, encoder)) }
            },
            Err(reason) => {
                let text = keyed_text(
                    "Error while obtaining illustration ",
                    key,
                    " ugoira frames: ",
                    reason.as_str(),
                );
                Routed { report: Report { failure: true, text }, forward: None }
            },
        }
    }

    /// Routes the outcome of encoding the frames of `key`. An encoded
    /// animation goes on to be stored under the same key, in the run's
    /// format; a failure is reported.
    pub fn encoded(&self, key: IllustId, outcome: Result<Vec<u8>, String>) -> (routed: Routed<
        UgoiraSaver<Format>,
    >)
        ensures
            match outcome {
                Ok(data) => {
                    &&& !routed.report.failure
                    &&& routed.report.text@ == queued_text(key, "save"@)
                    &&& routed.forward matches Some(saver)
                    &&& saver.illust_id == key
                    &&& saver.data == data
                    &&& saver.params == self.format
                },
                Err(reason) => {
                    &&& routed.report.failure
                    &&& routed.report.text@ == encode_failure_text(key, reason@)
                    &&& routed.forward is None
                },
            },
    {
        match outcome {
            Ok(data) => {
                let text = keyed_text("Added illustration ", key, " to ", "save");
                let text = text.concat(" queue");
                let saver = UgoiraSaver::new(key, data, self.format);
                Routed { report: Report { failure: false, text }, forward: Some(saver) }
            },
            Err(reason) => {
                let text = keyed_text(
                    "Error while encoding illustration ",
                    key,
                    ": ",
                    reason.as_str(),
                );
                Routed { report: Report { failure: true, text }, forward: None }
            },
        }
    }

    /// Routes the outcome of storing the animation of `key`. A stored
    /// animation leaves the pipeline under its key; a failure is reported.
    pub fn saved(&self, key: IllustId, outcome: Result<(), String>) -> (routed: Routed<IllustId>)
        ensures
            match outcome {
                Ok(()) => {
                    &&& !routed.report.failure
                    &&& routed.report.text@ == finished_text(key)
                    &&& routed.forward == Some(key)
                },
                Err(reason) => {
                    &&& routed.report.failure
                    &&& routed.report.text@ == save_failure_text(key, reason@)
                    &&& routed.forward is None
                },
            },
    {
        match outcome {
            Ok(()) => {
                let text = keyed_text("Finished processing illustration ", key, "", "");
                proof {
                    reveal_strlit("");
                    assert(text@ =~= finished_text(key));
                }
                Routed { report: Report { failure: false, text }, forward: Some(key) }
            },
            Err(reason) => {
                let text = keyed_text("Error while saving illustration ", key, ": ", reason.as_str());
                Routed { report: Report { failure: true, text }, forward: None }
            },
        }
    }
}

/// The results that succeeded, each under the key it came with, in the
/// order given.
pub open spec fn survivors<K, T>(results: Seq<(K, Result<T, String>)>) -> Seq<(K, T)>
    decreases results.len(),
{
    if results.len() == 0 {
        Seq::empty()
    } else {
        match results.last().1 {
            Ok(value) => survivors(results.drop_last()).push((results.last().0, value)),
            Err(_) => survivors(results.drop_last()),
        }
    }
}

/// The results that failed, each reason under the key it came with, in the
/// order given.
pub open spec fn casualties<K, T>(results: Seq<(K, Result<T, String>)>) -> Seq<(K, String)>
    decreases results.len(),
{
    if results.len() == 0 {
        Seq::empty()
    } else {
        match results.last().1 {
            Ok(_) => casualties(results.drop_last()),
            Err(reason) => casualties(results.drop_last()).push((results.last().0, reason)),
        }
    }
}

/// The results of one stage, parted.
#[derive(Debug)]
pub struct Sifted<K, T> {
    /// What goes on to the next stage.
    pub forwarded: Vec<(K, T)>,
    /// What is reported and dropped.
    pub dropped: Vec<(K, String)>,
}

/// Parts the results of a stage, which may have come in any order, into
/// those that go on and those that are dropped. Nothing is lost, nothing
/// changes its key, and no failure holds back a success.
pub fn sift<K, T>(results: Vec<(K, Result<T, String>)>) -> (sifted: Sifted<K, T>)
    ensures
        sifted.forwarded@ == survivors(results@),
        sifted.dropped@ == casualties(results@),
{
    let ghost all = results@;
    let mut results = results;
    let mut forwarded: Vec<(K, T)> = Vec::new();
    let mut dropped: Vec<(K, String)> = Vec::new();
    while results.len() > 0
        invariant
            results@.len() <= all.len(),
            results@ == all.take(results@.len() as int),
            survivors(all) == survivors(results@) + forwarded@.reverse(),
            casualties(all) == casualties(results@) + dropped@.reverse(),
        decreases results@.len(),
    {
        let ghost before = results@;
        let ghost sent = forwarded@;
        let ghost lost = dropped@;
        let last = results.pop();
        proof {
            assert(results@ =~= before.drop_last());
            assert(results@ =~= all.take(results@.len() as int));
        }
        match last {
            Some((key, Ok(value))) => {
                forwarded.push((key, value));
                assert(forwarded@.reverse() =~= seq![(key, value)] + sent.reverse());
                assert(survivors(before) + sent.reverse() =~= survivors(results@)
                    + forwarded@.reverse());
            },
            Some((key, Err(reason))) => {
                dropped.push((key, reason));
                assert(dropped@.reverse() =~= seq![(key, reason)] + lost.reverse());
                assert(casualties(before) + lost.reverse() =~= casualties(results@)
                    + dropped@.reverse());
            },
            None => {},
        }
    }
    let ghost sent = forwarded@;
    let ghost lost = dropped@;
    reverse_in_place(&mut forwarded);
    reverse_in_place(&mut dropped);
    proof {
        assert(survivors(results@) =~= Seq::<(K, T)>::empty());
        assert(casualties(results@) =~= Seq::<(K, String)>::empty());
        assert(survivors(all) =~= sent.reverse());
        assert(casualties(all) =~= lost.reverse());
    }
    Sifted { forwarded, dropped }
}

/// Turns the order of `items` around.
fn reverse_in_place<A>(items: &mut Vec<A>)
    ensures
        final(items)@ == old(items)@.reverse(),
{
    let mut turned: Vec<A> = Vec::new();
    let ghost all = items@;
    while items.len() > 0
        invariant
            items@.len() <= all.len(),
            items@ == all.take(items@.len() as int),
            turned@.len() + items@.len() == all.len(),
            forall|i: int| 0 <= i < turned@.len() ==> turned@[i] == all[all.len() - 1 - i],
        decreases items@.len(),
    {
        let ghost before = items@;
        match items.pop() {
            Some(item) => {
                assert(items@ =~= all.take(items@.len() as int));
                turned.push(item);
            },
            None => {},
        }
    }
    items.append(&mut turned);
    assert(items@ =~= all.reverse());
}

/// Every success goes on under its own key, whatever else is in the batch.
pub proof fn lemma_success_survives<K, T>(results: Seq<(K, Result<T, String>)>, i: int)
    requires
        0 <= i < results.len(),
        results[i].1 is Ok,
    ensures
        survivors(results).contains((results[i].0, results[i].1->Ok_0)),
    decreases results.len(),
{
    let init = results.drop_last();
    let item = (results[i].0, results[i].1->Ok_0);
    if i == results.len() - 1 {
        let s = survivors(results);
        assert(s == survivors(init).push(item));
        assert(s[s.len() - 1] == item);
    } else {
        lemma_success_survives(init, i);
        let k = choose|k: int| 0 <= k < survivors(init).len() && survivors(init)[k] == item;
        assert(survivors(results)[k] == item);
    }
}

/// Whatever goes on came in as a success, under the key it goes on with.
pub proof fn lemma_survivor_origin<K, T>(results: Seq<(K, Result<T, String>)>, j: int)
    requires
        0 <= j < survivors(results).len(),
    ensures
        exists|i: int|
            0 <= i < results.len() && (#[trigger] results[i]).0 == survivors(results)[j].0
                && results[i].1 == Ok::<T, String>(survivors(results)[j].1),
    decreases results.len(),
{
    let init = results.drop_last();
    if results.len() > 0 {
        if results.last().1 is Ok && j == survivors(init).len() {
            let i = results.len() - 1;
            assert(results[i].0 == survivors(results)[j].0);
        } else {
            lemma_survivor_origin(init, j);
            let i = choose|i: int|
                0 <= i < init.len() && (#[trigger] init[i]).0 == survivors(init)[j].0 && init[i].1
                    == Ok::<T, String>(survivors(init)[j].1);
            assert(results[i] == init[i]);
        }
    }
}

/// A failure stays with its own item: without the failed result the same
/// items go on, in the same order.
pub proof fn lemma_failure_isolated<K, T>(results: Seq<(K, Result<T, String>)>, i: int)
    requires
        0 <= i < results.len(),
        results[i].1 is Err,
    ensures
        survivors(results.remove(i)) == survivors(results),
    decreases results.len(),
{
    let init = results.drop_last();
    if i == results.len() - 1 {
        assert(results.remove(i) =~= init);
    } else {
        lemma_failure_isolated(init, i);
        assert(results.remove(i).drop_last() =~= init.remove(i));
        assert(results.remove(i).last() == results.last());
    }
}

/// Two animations that go on to be stored in one run get different file
/// names unless they belong to the same illustration.
pub proof fn lemma_stored_names_follow_keys(format: Format, a: IllustId, b: IllustId)
    ensures
        file_name_text(a, format.extension()) == file_name_text(b, format.extension()) <==> a == b,
{
    if file_name_text(a, format.extension()) == file_name_text(b, format.extension()) {
        crate::save::lemma_file_names_distinct(a, b, format.extension());
    }
}

} // verus!
