//! What the encoder is told: the frame rate, the concatenation script, and
//! the command line, for each of the output formats.

use crate::pixiv::types::UgoiraDelay;
use crate::ratio::{
    fixed_point_text, fraction_decimal_text, fraction_div, fraction_mul, fraction_text, gcd,
    lemma_gcd_one, lemma_lowest_terms, lemma_lowest_terms_coprime, lowest_denom, lowest_numer, ratio_text, Ratio,
};
use crate::text::{
    decimal, digits_value, lemma_decimal_value, lemma_padded_value, padded_decimal, pow10,
};
use crate::ugoira::{
    check_frame_set, frame_set_defect, lemma_total_delay_prefix, total_delay, valid_frame_set,
    FrameSetError, UgoiraFrame,
};
use vstd::arithmetic::div_mod::{
    lemma_div_by_multiple, lemma_div_multiples_vanish_quotient, lemma_truncate_middle,
};
use vstd::prelude::*;
use vstd::string::StringExecFns;

verus! {

/// The texts that a list of strings holds.
pub open spec fn texts(words: Seq<String>) -> Seq<Seq<char>> {
    Seq::new(words.len(), |i: int| words[i]@)
}

/// A program and the arguments it is started with.
#[derive(Debug)]
pub struct CommandLine {
    pub program: String,
    pub args: Vec<String>,
}

impl CommandLine {
    /// The arguments, in order.
    pub open spec fn words(&self) -> Seq<Seq<char>> {
        texts(self.args@)
    }

    /// A command line for `program`, without arguments yet.
    pub fn new(program: &str) -> (cmd: CommandLine)
        ensures
            cmd.program@ == program@,
            cmd.words() == Seq::<Seq<char>>::empty(),
    {
        let cmd = CommandLine { program: String::from_str(program), args: Vec::new() };
        assert(cmd.words() =~= Seq::<Seq<char>>::empty());
        cmd
    }

    /// Adds one argument at the end.
    pub fn arg(&mut self, word: &str)
        ensures
            final(self).program == old(self).program,
            final(self).words() == old(self).words().push(word@),
    {
        self.args.push(String::from_str(word));
        assert(self.words() =~= old(self).words().push(word@));
    }
}

/// An output format's part of the encoder's command line.
pub trait EncodeParams {
    /// The arguments that select the format.
    spec fn arguments(&self) -> Seq<Seq<char>>;

    /// Adds the arguments that select the format to `cmd`.
    fn inspect_cmd(&self, cmd: &mut CommandLine)
        ensures
            final(cmd).program == old(cmd).program,
            final(cmd).words() == old(cmd).words() + self.arguments(),
    ;
}

/// Lossless video in a WebM container.
#[derive(Clone, Copy, Debug)]
pub struct WebmParams;

/// A looping GIF with a palette computed from the frames.
#[derive(Clone, Copy, Debug)]
pub struct GifParams;

impl EncodeParams for WebmParams {
    open spec fn arguments(&self) -> Seq<Seq<char>> {
        seq!["-c:v"@, "libvpx-vp9"@, "-lossless"@, "1"@, "-f"@, "webm"@]
    }

    fn inspect_cmd(&self, cmd: &mut CommandLine) {
        cmd.arg("-c:v");
        cmd.arg("libvpx-vp9");
        cmd.arg("-lossless");
        cmd.arg("1");
        cmd.arg("-f");
        cmd.arg("webm");
        assert(cmd.words() =~= old(cmd).words() + self.arguments());
    }
}

impl EncodeParams for GifParams {
    open spec fn arguments(&self) -> Seq<Seq<char>> {
        seq![
            "-vf"@,
            "split[s0][s1];[s0]palettegen[p];[s1][p]paletteuse"@,
            "-loop"@,
            "0"@,
            "-f"@,
            "gif"@,
        ]
    }

    fn inspect_cmd(&self, cmd: &mut CommandLine) {
        cmd.arg("-vf");
        cmd.arg("split[s0][s1];[s0]palettegen[p];[s1][p]paletteuse");
        cmd.arg("-loop");
        cmd.arg("0");
        cmd.arg("-f");
        cmd.arg("gif");
        assert(cmd.words() =~= old(cmd).words() + self.arguments());
    }
}

/// A duration of `millis` milliseconds written in seconds, with exactly
/// three digits behind the point.
pub open spec fn seconds_text(millis: nat) -> Seq<char> {
    decimal(millis / 1000) + seq!['.'] + padded_decimal(millis % 1000, 3)
}

/// A frame's lines in the concatenation script.
pub open spec fn manifest_entry(frame: UgoiraFrame) -> Seq<char> {
    "\nfile "@ + frame.file@ + "\nduration "@ + seconds_text(frame.delay.0 as nat) + "\n"@
}

/// The concatenation script for `frames`: the version line, then each
/// frame's lines in the order of the frames.
pub open spec fn manifest_text(frames: Seq<UgoiraFrame>) -> Seq<char>
    decreases frames.len(),
{
    if frames.len() == 0 {
        "ffconcat version 1.0\n"@
    } else {
        manifest_text(frames.drop_last()) + manifest_entry(frames.last())
    }
}

/// The duration of one frame as the concatenation script states it:
/// the delay in seconds, to the millisecond.
pub fn duration_text(delay: UgoiraDelay) -> (s: String)
    ensures
        s@ == seconds_text(delay.0 as nat),
{
    let q = fraction_div(Ratio::from_integer(delay.0 as u64), Ratio::from_integer(1000));
    proof {
        let m = delay.0 as nat;
        let g = gcd(m, 1000);
        lemma_lowest_terms(m, 1000);
        let n = q.numer as int;
        let d = q.denom as int;
        assert(g * n == m && g * d == 1000 && d > 0 && g > 0) by (nonlinear_arith)
            requires
                g * lowest_numer(m, 1000) == m,
                g * lowest_denom(m, 1000) == 1000,
                lowest_denom(m, 1000) > 0,
                n == lowest_numer(m, 1000),
                d == lowest_denom(m, 1000),
        ;
        lemma_div_multiples_vanish_quotient(g as int, n, d);
        assert(n / d == m / 1000);
        lemma_truncate_middle(n, g as int, d);
        assert(g * (n % d) == m % 1000);
        assert((n % d) * 1000 == (g * (n % d)) * d) by (nonlinear_arith)
            requires
                g * d == 1000,
        ;
        lemma_div_by_multiple(g * (n % d), d);
        assert(((n % d) * 1000) / d == m % 1000);
        assert(pow10(3) == 1000) by {
            reveal_with_fuel(pow10, 4);
        }
        assert(fixed_point_text(n as nat, d as nat, 3) == seconds_text(m));
    }
    fraction_decimal_text(q, 3)
}

/// Turns the frames of one animation into the instructions for the encoder.
#[derive(Debug)]
pub struct UgoiraEncoder<P: EncodeParams> {
    pub data: Vec<UgoiraFrame>,
    pub params: P,
}

/// The name of the concatenation script in the workspace.
pub const SCRIPT_NAME: &'static str = "ffconcat.txt";

/// The name under which the encoder leaves its result in the workspace.
pub const OUTPUT_NAME: &'static str = "out";

/// The program that encodes.
pub const ENCODER_PROGRAM: &'static str = "ffmpeg";

/// The arguments of the encoder for a format with the arguments `format`
/// and the frame rate `rate`: overwrite without asking, read the script,
/// the format's own arguments, the frame rate, and where to write.
pub open spec fn encoder_words(format: Seq<Seq<char>>, rate: Ratio) -> Seq<Seq<char>> {
    seq!["-y"@, "-i"@, SCRIPT_NAME@] + format + seq!["-r"@, ratio_text(rate), OUTPUT_NAME@]
}

/// Everything one run of the encoder needs: the files to put into an empty
/// workspace and the command to run there.
#[derive(Debug)]
pub struct EncodePlan {
    /// The concatenation script, to be stored as `SCRIPT_NAME`.
    pub manifest: String,
    /// The frames; each is stored under its own file name.
    pub frames: Vec<UgoiraFrame>,
    /// The encoder's command line, to be run inside the workspace.
    pub command: CommandLine,
}

impl<P: EncodeParams> UgoiraEncoder<P> {
    /// An encoder for the frames `data` and the format `params`.
    pub fn new(data: Vec<UgoiraFrame>, params: P) -> (encoder: Self)
        ensures
            encoder.data == data,
            encoder.params == params,
    {
        UgoiraEncoder { data, params }
    }

    /// Whether the frames are an animation that can be encoded.
    pub open spec fn wf(&self) -> bool {
        valid_frame_set(self.data@)
    }

    /// The frame rate that plays the frames in the time their delays add up
    /// to: a thousand times the number of frames over the total delay in
    /// milliseconds, as an exact ratio.
    pub open spec fn fps(&self) -> Ratio {
        Ratio {
            numer: lowest_numer(1000 * self.data@.len(), total_delay(self.data@)) as u64,
            denom: lowest_denom(1000 * self.data@.len(), total_delay(self.data@)) as u64,
        }
    }

    /// Decides whether the frames are an animation that can be encoded, and
    /// names the defect if they are not.
    pub fn check(&self) -> (result: Result<(), FrameSetError>)
        ensures
            result is Ok <==> self.wf(),
            result matches Err(defect) ==> frame_set_defect(self.data@, defect),
    {
        check_frame_set(&self.data)
    }

    /// The frame rate handed to the encoder.
    pub fn calculate_fps(&self) -> (rate: Ratio)
        requires
            self.wf(),
        ensures
            rate == self.fps(),
            rate.is_lowest_terms_of(1000 * self.data@.len(), total_delay(self.data@)),
            rate.denom > 0,
            rate.numer * total_delay(self.data@) == 1000 * self.data@.len() * rate.denom,
            gcd(rate.numer as nat, rate.denom as nat) == 1,
    {
        let count = self.data.len();
        let mut total: u32 = 0;
        let mut index: usize = 0;
        while index < count
            invariant
                count == self.data@.len(),
                index <= count,
                total == total_delay(self.data@.take(index as int)),
                total_delay(self.data@) <= u32::MAX,
            decreases count - index,
        {
            proof {
                lemma_total_delay_prefix(self.data@, index as int);
                lemma_total_delay_prefix(self.data@, index + 1);
            }
            total = total + self.data[index].delay.0;
            index += 1;
        }
        proof {
            assert(self.data@.take(count as int) =~= self.data@);
            lemma_total_delay_prefix(self.data@, 0);
            lemma_gcd_one((1000 * count) as nat);
            lemma_lowest_terms((1000 * count) as nat, total as nat);
            lemma_lowest_terms_coprime((1000 * count) as nat, total as nat);
        }
        let scaled = fraction_mul(Ratio::from_integer(1000), Ratio::from_integer(count as u64));
        fraction_div(scaled, Ratio::from_integer(total as u64))
    }

    /// The concatenation script: which frame files to play, and each for
    /// how long.
    pub fn manifest(&self) -> (script: String)
        ensures
            script@ == manifest_text(self.data@),
    {
        let mut script = String::from_str("ffconcat version 1.0\n");
        let mut index: usize = 0;
        while index < self.data.len()
            invariant
                index <= self.data@.len(),
                script@ == manifest_text(self.data@.take(index as int)),
            decreases self.data@.len() - index,
        {
            let frame = &self.data[index];
            let ghost before = script@;
            script.append("\nfile ");
            script.append(frame.file.as_str());
            script.append("\nduration ");
            let duration = duration_text(frame.delay);
            script.append(duration.as_str());
            script.append("\n");
            proof {
                let longer = self.data@.take(index + 1);
                assert(longer.drop_last() =~= self.data@.take(index as int));
                assert(longer.last() == self.data@[index as int]);
                assert(script@ =~= before + manifest_entry(self.data@[index as int]));
            }
            index += 1;
        }
        assert(self.data@.take(self.data@.len() as int) =~= self.data@);
        script
    }

    /// The encoder's command line.
    pub fn command(&self) -> (cmd: CommandLine)
        requires
            self.wf(),
        ensures
            cmd.program@ == ENCODER_PROGRAM@,
            cmd.words() == encoder_words(self.params.arguments(), self.fps()),
    {
        let mut cmd = CommandLine::new(ENCODER_PROGRAM);
        cmd.arg("-y");
        cmd.arg("-i");
        cmd.arg(SCRIPT_NAME);
        self.params.inspect_cmd(&mut cmd);
        cmd.arg("-r");
        let rate = fraction_text(self.calculate_fps());
        cmd.arg(rate.as_str());
        cmd.arg(OUTPUT_NAME);
        assert(cmd.words() =~= encoder_words(self.params.arguments(), self.fps()));
        cmd
    }

    /// The files and the command for one run of the encoder.
    pub fn plan(self) -> (plan: EncodePlan)
        requires
            self.wf(),
        ensures
            plan.manifest@ == manifest_text(self.data@),
            plan.frames == self.data,
            plan.command.program@ == ENCODER_PROGRAM@,
            plan.command.words() == encoder_words(self.params.arguments(), self.fps()),
    {
        let manifest = self.manifest();
        let command = self.command();
        EncodePlan { manifest, frames: self.data, command }
    }

    /// The files and the command for one run of the encoder, or the reason
    /// why the frames cannot be encoded.
    pub fn into(self) -> (result: Result<EncodePlan, FrameSetError>)
        ensures
            result is Ok <==> self.wf(),
            result matches Err(defect) ==> frame_set_defect(self.data@, defect),
            result matches Ok(plan) ==> {
                &&& plan.manifest@ == manifest_text(self.data@)
                &&& plan.frames == self.data
                &&& plan.command.program@ == ENCODER_PROGRAM@
                &&& plan.command.words() == encoder_words(self.params.arguments(), self.fps())
            },
    {
        match self.check() {
            Ok(()) => Ok(self.plan()),
            Err(e) => Err(e),
        }
    }
}

/// Why an animation was not encoded.
#[derive(Debug)]
pub enum EncodeError {
    /// The encoder could not be started or waited for.
    Process(String),
    /// The encoder ran, but left no output.
    OutputMissing,
}

/// What a run of the encoder amounts to, given what happened to the
/// process and what was found under `OUTPUT_NAME` afterwards. A process
/// that could not be started or waited for is a failure whatever was
/// found; how the process ended is not looked at, so a missing output is
/// the only other sign of failure.
pub open spec fn encode_outcome(process: Result<(), String>, output: Option<Vec<u8>>) -> Result<
    Vec<u8>,
    EncodeError,
> {
    match process {
        Err(reason) => Err(EncodeError::Process(reason)),
        Ok(()) => match output {
            None => Err(EncodeError::OutputMissing),
            Some(data) => Ok(data),
        },
    }
}

/// Decides what a run of the encoder amounts to.
pub fn encode_result(process: Result<(), String>, output: Option<Vec<u8>>) -> (result: Result<
    Vec<u8>,
    EncodeError,
>)
    ensures
        result == encode_outcome(process, output),
{
    match process {
        Err(reason) => Err(EncodeError::Process(reason)),
        Ok(()) => match output {
            None => Err(EncodeError::OutputMissing),
            Some(data) => Ok(data),
        },
    }
}

/// The number of milliseconds that a duration written by `seconds_text`
/// states: the digits before the point count seconds, the three behind it
/// milliseconds.
pub open spec fn listed_millis(text: Seq<char>) -> nat {
    digits_value(text.subrange(0, text.len() - 4)) * 1000 + digits_value(
        text.subrange(text.len() - 3, text.len() as int),
    )
}

/// The durations that the concatenation script lists for `frames`, added
/// up, in milliseconds.
pub open spec fn listed_total(frames: Seq<UgoiraFrame>) -> nat
    decreases frames.len(),
{
    if frames.len() == 0 {
        0
    } else {
        listed_total(frames.drop_last()) + listed_millis(
            seconds_text(frames.last().delay.0 as nat),
        )
    }
}

/// A duration is written down without loss: reading it back gives the
/// delay to the millisecond.
pub proof fn lemma_seconds_text_exact(millis: nat)
    ensures
        listed_millis(seconds_text(millis)) == millis,
{
    let whole = decimal(millis / 1000);
    let part = padded_decimal(millis % 1000, 3);
    let text = seconds_text(millis);
    lemma_decimal_value(millis / 1000);
    lemma_padded_value(millis % 1000, 3);
    assert(pow10(3) == 1000) by {
        reveal_with_fuel(pow10, 4);
    }
    assert(text.len() == whole.len() + 4);
    assert(text.subrange(0, text.len() - 4) =~= whole);
    assert(text.subrange(text.len() - 3, text.len() as int) =~= part);
}

/// The durations listed in the concatenation script add up to the total
/// delay of the frames exactly.
pub proof fn lemma_listed_durations_total(frames: Seq<UgoiraFrame>)
    ensures
        listed_total(frames) == total_delay(frames),
    decreases frames.len(),
{
    if frames.len() > 0 {
        lemma_listed_durations_total(frames.drop_last());
        lemma_seconds_text_exact(frames.last().delay.0 as nat);
    }
}

} // verus!
