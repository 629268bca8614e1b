//! Decisions of the thumbnail generator: how many generations may run at
//! once, which inputs are decoded straight from memory, and where other
//! inputs are spilled to disk.

use crate::text::{
    ascii_lower, chars_equal, chars_of, concat, is_ascii_text, to_lowercase, unicode_lowercase,
};
use crate::vips::{mime_of, OutputFormat};
use vstd::prelude::*;

verus! {

/// Most thumbnail generations allowed at once on a machine with `cpus`
/// logical CPUs: half of them, but at least two, so the async runtime keeps
/// threads for I/O.
pub open spec fn concurrency_for(cpus: int) -> int {
    if cpus / 2 >= 2 {
        cpus / 2
    } else {
        2
    }
}

/// Most thumbnail generations allowed at once on a machine with `cpus`
/// logical CPUs.
pub fn max_concurrent(cpus: usize) -> (n: usize)
    ensures
        n == concurrency_for(cpus as int),
        n >= 2,
        n * 2 <= cpus || n == 2,
{
    let half = cpus / 2;
    if half >= 2 {
        half
    } else {
        2
    }
}

/// Lowercase extensions of formats that are decoded straight from memory.
pub open spec fn memory_decodable() -> Seq<Seq<char>> {
    seq![
        seq!['j', 'p', 'g'],
        seq!['j', 'p', 'e', 'g'],
        seq!['p', 'n', 'g'],
        seq!['w', 'e', 'b', 'p'],
        seq!['g', 'i', 'f'],
        seq!['b', 'm', 'p'],
        seq!['t', 'i', 'f', 'f'],
        seq!['t', 'i', 'f'],
    ]
}

/// Whether an already lowercased extension is decoded straight from memory.
pub fn is_memory_decodable_lower(lower: &str) -> (r: bool)
    ensures
        r == memory_decodable().contains(lower@),
{
    let v = chars_of(lower);
    let r = chars_equal(&v, &['j', 'p', 'g']) || chars_equal(&v, &['j', 'p', 'e', 'g'])
        || chars_equal(&v, &['p', 'n', 'g']) || chars_equal(&v, &['w', 'e', 'b', 'p'])
        || chars_equal(&v, &['g', 'i', 'f']) || chars_equal(&v, &['b', 'm', 'p'])
        || chars_equal(&v, &['t', 'i', 'f', 'f']) || chars_equal(&v, &['t', 'i', 'f']);
    proof {
        let m = memory_decodable();
        if m.contains(v@) {
            let k = choose|k: int| 0 <= k < m.len() && m[k] == v@;
            assert(r) by {
                if k == 0 { assert(v@ =~= seq!['j', 'p', 'g']); }
                else if k == 1 { assert(v@ =~= seq!['j', 'p', 'e', 'g']); }
                else if k == 2 { assert(v@ =~= seq!['p', 'n', 'g']); }
                else if k == 3 { assert(v@ =~= seq!['w', 'e', 'b', 'p']); }
                else if k == 4 { assert(v@ =~= seq!['g', 'i', 'f']); }
                else if k == 5 { assert(v@ =~= seq!['b', 'm', 'p']); }
                else if k == 6 { assert(v@ =~= seq!['t', 'i', 'f', 'f']); }
                else { assert(v@ =~= seq!['t', 'i', 'f']); }
            }
        }
        if r {
            assert(m.contains(v@)) by {
                if v@ == seq!['j', 'p', 'g'] { assert(m[0] == v@); }
                else if v@ == seq!['j', 'p', 'e', 'g'] { assert(m[1] == v@); }
                else if v@ == seq!['p', 'n', 'g'] { assert(m[2] == v@); }
                else if v@ == seq!['w', 'e', 'b', 'p'] { assert(m[3] == v@); }
                else if v@ == seq!['g', 'i', 'f'] { assert(m[4] == v@); }
                else if v@ == seq!['b', 'm', 'p'] { assert(m[5] == v@); }
                else if v@ == seq!['t', 'i', 'f', 'f'] { assert(m[6] == v@); }
                else { assert(m[7] == v@); }
            }
        }
    }
    r
}

/// Whether an extension, in any letter case, is decoded straight from memory;
/// also returns the lowercased extension.
pub fn is_memory_decodable(ext: &str) -> (r: (bool, String))
    ensures
        r.1@ == unicode_lowercase(ext@),
        r.0 == memory_decodable().contains(unicode_lowercase(ext@)),
        is_ascii_text(ext@) ==> r.1@ == ascii_lower(ext@),
{
    let lower = to_lowercase(ext);
    let hit = is_memory_decodable_lower(lower.as_str());
    (hit, lower)
}

/// Name of the temporary file that bytes of another format are written to:
/// `tokimo_thumb_{photo_id}.{ext}`.
pub fn spill_file_name(photo_id: &str, ext: &str) -> (r: String)
    ensures
        r@ == "tokimo_thumb_"@ + photo_id@ + "."@ + ext@,
{
    concat(concat(concat(String::from_str("tokimo_thumb_"), photo_id), "."), ext)
}

// ── the generator's steps ────────────────────────────────────────────────────

/// Where the image a generation works on comes from.
pub enum GeneratorSource {
    /// A file on disk.
    File,
    /// Bytes decoded in memory; the extension, lowercased.
    InMemory(String),
    /// Bytes written first to a temporary file of this name.
    Spilled(String),
}

/// One thumbnail generation: its source, the target format, and whether an
/// ffmpeg binary was configured as the last resort.
pub struct GeneratorJob {
    pub source: GeneratorSource,
    pub format: OutputFormat,
    pub has_ffmpeg: bool,
}

impl GeneratorJob {
    /// A generation from a file on disk.
    pub fn for_file(format: OutputFormat, has_ffmpeg: bool) -> (j: Self)
        ensures
            j.source is File,
            j.format == format,
            j.has_ffmpeg == has_ffmpeg,
    {
        GeneratorJob { source: GeneratorSource::File, format, has_ffmpeg }
    }

    /// A generation from the bytes of photo `photo_id` with extension `ext`:
    /// in memory for the formats that allow it, else through the temporary
    /// file [`spill_file_name`].
    pub fn for_bytes(photo_id: &str, ext: &str, format: OutputFormat, has_ffmpeg: bool) -> (j: Self)
        ensures
            if memory_decodable().contains(unicode_lowercase(ext@)) {
                j.source matches GeneratorSource::InMemory(e) && e@ == unicode_lowercase(ext@)
            } else {
                j.source matches GeneratorSource::Spilled(n) && n@ == "tokimo_thumb_"@ + photo_id@ + "."@
                    + ext@
            },
            j.format == format,
            j.has_ffmpeg == has_ffmpeg,
    {
        let (in_memory, lower) = is_memory_decodable(ext);
        if in_memory {
            GeneratorJob { source: GeneratorSource::InMemory(lower), format, has_ffmpeg }
        } else {
            GeneratorJob { source: GeneratorSource::Spilled(spill_file_name(photo_id, ext)), format, has_ffmpeg }
        }
    }
}

/// Where a generation stands.
pub enum GeneratorPhase {
    Start,
    /// Waiting for a generation slot.
    AwaitingSlot,
    /// The bytes are being resized in memory.
    AwaitingMemoryResize,
    /// The bytes are being written to the temporary file.
    AwaitingSpill,
    /// The file (the source, or the temporary file) is being resized.
    AwaitingFileResize,
    /// The configured ffmpeg binary is resizing the file.
    AwaitingFfmpeg,
    Finished,
}

/// What happened since the last step of a generation.
pub enum GeneratorEvent<E> {
    Begin,
    /// A generation slot was granted, or the error of waiting for one.
    Slot(Result<(), E>),
    /// Whether the temporary file was written, or the error of writing it.
    Spilled(Result<(), E>),
    /// What a blocking resize task returned, or the error of joining it.
    Resized(Result<Result<Vec<u8>, E>, E>),
}

/// What to do next in a generation.
pub enum GeneratorAction<E> {
    /// Wait for a generation slot.
    AcquireSlot,
    /// Resize the bytes in memory, in a blocking task, with this extension.
    ResizeInMemory(String),
    /// Write the bytes to the temporary file of this name.
    Spill(String),
    /// Resize the file in a blocking task.
    ResizeFile,
    /// Resize the file with the configured ffmpeg binary, in a blocking task.
    RunFfmpeg,
    /// Remove the temporary file when `remove_temp`; answer.
    Respond { result: Result<(Vec<u8>, &'static str), E>, remove_temp: bool },
    Nothing,
}

/// The answer to a generation whose resize produced `r`: the bytes with
/// the format's MIME type, or the error.
pub open spec fn answer<E>(job: &GeneratorJob, r: Result<Vec<u8>, E>, got: Result<(Vec<u8>, &'static str), E>) -> bool {
    match r {
        Ok(b) => got matches Ok((x, m)) && x == b && m@ == mime_of(job.format),
        Err(e) => got matches Err(x) && x == e,
    }
}

fn answer_with<E>(job: &GeneratorJob, r: Result<Vec<u8>, E>) -> (got: Result<(Vec<u8>, &'static str), E>)
    ensures
        answer(job, r, got),
{
    match r {
        Ok(b) => Ok((b, job.format.mime_type())),
        Err(e) => Err(e),
    }
}

/// The phases in which the temporary file of a generation exists.
pub open spec fn generator_holds_temp(job: &GeneratorJob, p: GeneratorPhase) -> bool {
    job.source is Spilled && (p is AwaitingFileResize || p is AwaitingFfmpeg)
}

/// An action that removes the temporary file.
pub open spec fn generator_removes_temp<E>(a: GeneratorAction<E>) -> bool {
    a matches GeneratorAction::Respond { remove_temp, .. } && remove_temp
}

/// Next step of a thumbnail generation.
///
/// Nothing is decoded before a generation slot is granted. Bytes of the
/// formats decoded in memory are resized in memory; other bytes are written
/// to the temporary file, and an error writing it is the answer. A file is
/// resized by the regular pipeline and, when that fails and an ffmpeg
/// binary was configured, by that binary. The answer is the encoded bytes
/// with the format's MIME type, or the error; the temporary file is removed
/// once a resize of it returned, but not when joining the task failed. An
/// event that does not belong to the phase changes nothing.
pub fn generator_step<E>(job: &GeneratorJob, phase: GeneratorPhase, event: GeneratorEvent<E>) -> (r: (
    GeneratorPhase,
    GeneratorAction<E>,
))
    ensures
        generator_holds_temp(job, phase) && !generator_holds_temp(job, r.0) ==> (generator_removes_temp(r.1)
            <==> !(event matches GeneratorEvent::Resized(Err(_)))),
        !generator_holds_temp(job, phase) ==> !generator_removes_temp(r.1),
        match (phase, event) {
            (GeneratorPhase::Start, GeneratorEvent::Begin) => {
                r.0 == GeneratorPhase::AwaitingSlot && r.1 is AcquireSlot
            },
            (GeneratorPhase::AwaitingSlot, GeneratorEvent::Slot(Err(e))) => {
                &&& r.0 == GeneratorPhase::Finished
                &&& r.1 matches GeneratorAction::Respond { result: Err(x), remove_temp }
                &&& x == e
                &&& !remove_temp
            },
            (GeneratorPhase::AwaitingSlot, GeneratorEvent::Slot(Ok(()))) => match job.source {
                GeneratorSource::File => r.0 == GeneratorPhase::AwaitingFileResize && r.1 is ResizeFile,
                GeneratorSource::InMemory(ext) => {
                    &&& r.0 == GeneratorPhase::AwaitingMemoryResize
                    &&& r.1 matches GeneratorAction::ResizeInMemory(x)
                    &&& x@ == ext@
                },
                GeneratorSource::Spilled(name) => {
                    &&& r.0 == GeneratorPhase::AwaitingSpill
                    &&& r.1 matches GeneratorAction::Spill(x)
                    &&& x@ == name@
                },
            },
            (GeneratorPhase::AwaitingMemoryResize, GeneratorEvent::Resized(Err(e))) => {
                &&& r.0 == GeneratorPhase::Finished
                &&& r.1 matches GeneratorAction::Respond { result: Err(x), remove_temp }
                &&& x == e
                &&& !remove_temp
            },
            (GeneratorPhase::AwaitingMemoryResize, GeneratorEvent::Resized(Ok(res))) => {
                &&& r.0 == GeneratorPhase::Finished
                &&& r.1 matches GeneratorAction::Respond { result, remove_temp }
                &&& answer(job, res, result)
                &&& !remove_temp
            },
            (GeneratorPhase::AwaitingSpill, GeneratorEvent::Spilled(Err(e))) => {
                &&& r.0 == GeneratorPhase::Finished
                &&& r.1 matches GeneratorAction::Respond { result: Err(x), remove_temp }
                &&& x == e
                &&& !remove_temp
            },
            (GeneratorPhase::AwaitingSpill, GeneratorEvent::Spilled(Ok(()))) => {
                r.0 == GeneratorPhase::AwaitingFileResize && r.1 is ResizeFile
            },
            (GeneratorPhase::AwaitingFileResize, GeneratorEvent::Resized(Err(e))) => {
                &&& r.0 == GeneratorPhase::Finished
                &&& r.1 matches GeneratorAction::Respond { result: Err(x), remove_temp }
                &&& x == e
                &&& !remove_temp
            },
            (GeneratorPhase::AwaitingFileResize, GeneratorEvent::Resized(Ok(Ok(b)))) => {
                &&& r.0 == GeneratorPhase::Finished
                &&& r.1 matches GeneratorAction::Respond { result: Ok((x, m)), remove_temp }
                &&& x == b
                &&& m@ == mime_of(job.format)
                &&& remove_temp == job.source is Spilled
            },
            (GeneratorPhase::AwaitingFileResize, GeneratorEvent::Resized(Ok(Err(e)))) => if job.has_ffmpeg {
                r.0 == GeneratorPhase::AwaitingFfmpeg && r.1 is RunFfmpeg
            } else {
                &&& r.0 == GeneratorPhase::Finished
                &&& r.1 matches GeneratorAction::Respond { result: Err(x), remove_temp }
                &&& x == e
                &&& remove_temp == job.source is Spilled
            },
            (GeneratorPhase::AwaitingFfmpeg, GeneratorEvent::Resized(Err(e))) => {
                &&& r.0 == GeneratorPhase::Finished
                &&& r.1 matches GeneratorAction::Respond { result: Err(x), remove_temp }
                &&& x == e
                &&& !remove_temp
            },
            (GeneratorPhase::AwaitingFfmpeg, GeneratorEvent::Resized(Ok(res))) => {
                &&& r.0 == GeneratorPhase::Finished
                &&& r.1 matches GeneratorAction::Respond { result, remove_temp }
                &&& answer(job, res, result)
                &&& remove_temp == job.source is Spilled
            },
            _ => r.0 == phase && r.1 is Nothing,
        },
{
    let spilled = match &job.source {
        GeneratorSource::Spilled(_) => true,
        _ => false,
    };
    match (phase, event) {
        (GeneratorPhase::Start, GeneratorEvent::Begin) => (GeneratorPhase::AwaitingSlot, GeneratorAction::AcquireSlot),
        (GeneratorPhase::AwaitingSlot, GeneratorEvent::Slot(Err(e))) => (
            GeneratorPhase::Finished,
            GeneratorAction::Respond { result: Err(e), remove_temp: false },
        ),
        (GeneratorPhase::AwaitingSlot, GeneratorEvent::Slot(Ok(()))) => match &job.source {
            GeneratorSource::File => (GeneratorPhase::AwaitingFileResize, GeneratorAction::ResizeFile),
            GeneratorSource::InMemory(ext) => (
                GeneratorPhase::AwaitingMemoryResize,
                GeneratorAction::ResizeInMemory(ext.clone()),
            ),
            GeneratorSource::Spilled(name) => (GeneratorPhase::AwaitingSpill, GeneratorAction::Spill(name.clone())),
        },
        (GeneratorPhase::AwaitingMemoryResize, GeneratorEvent::Resized(Err(e))) => (
            GeneratorPhase::Finished,
            GeneratorAction::Respond { result: Err(e), remove_temp: false },
        ),
        (GeneratorPhase::AwaitingMemoryResize, GeneratorEvent::Resized(Ok(res))) => (
            GeneratorPhase::Finished,
            GeneratorAction::Respond { result: answer_with(job, res), remove_temp: false },
        ),
        (GeneratorPhase::AwaitingSpill, GeneratorEvent::Spilled(Err(e))) => (
            GeneratorPhase::Finished,
            GeneratorAction::Respond { result: Err(e), remove_temp: false },
        ),
        (GeneratorPhase::AwaitingSpill, GeneratorEvent::Spilled(Ok(()))) => (
            GeneratorPhase::AwaitingFileResize,
            GeneratorAction::ResizeFile,
        ),
        (GeneratorPhase::AwaitingFileResize, GeneratorEvent::Resized(Err(e))) => (
            GeneratorPhase::Finished,
            GeneratorAction::Respond { result: Err(e), remove_temp: false },
        ),
        (GeneratorPhase::AwaitingFileResize, GeneratorEvent::Resized(Ok(Ok(b)))) => (
            GeneratorPhase::Finished,
            GeneratorAction::Respond { result: answer_with(job, Ok(b)), remove_temp: spilled },
        ),
        (GeneratorPhase::AwaitingFileResize, GeneratorEvent::Resized(Ok(Err(e)))) => {
            if job.has_ffmpeg {
                (GeneratorPhase::AwaitingFfmpeg, GeneratorAction::RunFfmpeg)
            } else {
                (GeneratorPhase::Finished, GeneratorAction::Respond { result: Err(e), remove_temp: spilled })
            }
        },
        (GeneratorPhase::AwaitingFfmpeg, GeneratorEvent::Resized(Err(e))) => (
            GeneratorPhase::Finished,
            GeneratorAction::Respond { result: Err(e), remove_temp: false },
        ),
        (GeneratorPhase::AwaitingFfmpeg, GeneratorEvent::Resized(Ok(res))) => (
            GeneratorPhase::Finished,
            GeneratorAction::Respond { result: answer_with(job, res), remove_temp: spilled },
        ),
        (p, _) => (p, GeneratorAction::Nothing),
    }
}

} // verus!
