//! The library's error type and the text each error is shown with.
use vstd::prelude::*;

use crate::text::string_from;

verus! {

/// Library-level error. The command line maps these to exit codes and messages.
#[derive(Debug)]
pub enum Error {
    PresetNotFound { name: String, searched: Vec<String> },
    PresetParse { source: String, message: String },
    InvalidParam { message: String },
    /// Some presets of a batch failed: `(preset id, error text)` for each.
    BatchFailed { failures: Vec<(String, String)> },
}

pub type Result<T> = std::result::Result<T, Error>;

/// `parts` joined with `sep` between neighbours.
pub open spec fn join(parts: Seq<Seq<char>>, sep: Seq<char>) -> Seq<char>
    decreases parts.len(),
{
    if parts.len() == 0 {
        Seq::empty()
    } else if parts.len() == 1 {
        parts[0]
    } else {
        join(parts.drop_last(), sep) + sep + parts.last()
    }
}

pub open spec fn views(v: Seq<String>) -> Seq<Seq<char>> {
    Seq::new(v.len(), |i: int| v[i]@)
}

pub open spec fn failure_text(f: (String, String)) -> Seq<char> {
    f.0@ + ": "@ + f.1@
}

/// The text an error is shown with.
pub open spec fn error_text(e: Error) -> Seq<char> {
    match e {
        Error::PresetNotFound { name, searched } => "preset `"@ + name@ + "` not found (looked in: "@
            + join(views(searched@), ", "@) + ")"@,
        Error::PresetParse { source, message } => "failed to parse preset "@ + source@ + ": "@
            + message@,
        Error::InvalidParam { message } => message@,
        Error::BatchFailed { failures } => "presets failed: "@ + join(
            Seq::new(failures@.len(), |i: int| failure_text(failures@[i])),
            "; "@,
        ),
    }
}

/// Whether `e` is an `InvalidParam` error with exactly the text `msg`.
pub open spec fn is_invalid_param(e: Error, msg: Seq<char>) -> bool {
    e matches Error::InvalidParam { message } && message@ == msg
}

/// Appends `parts` joined by `sep` to `out`.
pub fn append_joined(out: &mut String, parts: &Vec<String>, sep: &str)
    ensures
        final(out)@ == old(out)@ + join(views(parts@), sep@),
{
    let ghost start = out@;
    let mut i: usize = 0;
    while i < parts.len()
        invariant
            i <= parts.len(),
            out@ == start + join(views(parts@.subrange(0, i as int)), sep@),
        decreases parts.len() - i,
    {
        let ghost before = views(parts@.subrange(0, i as int));
        let ghost after = views(parts@.subrange(0, i + 1));
        assert(after.drop_last() =~= before);
        assert(after.last() == parts@[i as int]@);
        if i > 0 {
            out.append(sep);
        }
        out.append(parts[i].as_str());
        i = i + 1;
    }
    assert(parts@.subrange(0, parts.len() as int) == parts@);
}

impl Error {
    /// The text the error is shown with (what `Display` would print).
    pub fn message(&self) -> (s: String)
        ensures
            s@ == error_text(*self),
    {
        match self {
            Error::PresetNotFound { name, searched } => {
                let mut s = string_from("preset `");
                s.append(name.as_str());
                s.append("` not found (looked in: ");
                append_joined(&mut s, searched, ", ");
                s.append(")");
                s
            },
            Error::PresetParse { source, message } => {
                let mut s = string_from("failed to parse preset ");
                s.append(source.as_str());
                s.append(": ");
                s.append(message.as_str());
                s
            },
            Error::InvalidParam { message } => message.clone(),
            Error::BatchFailed { failures } => {
                let mut texts: Vec<String> = Vec::new();
                let mut i: usize = 0;
                while i < failures.len()
                    invariant
                        i <= failures.len(),
                        texts@.len() == i,
                        forall|k: int|
                            0 <= k < i ==> #[trigger] texts@[k]@ == failure_text(failures@[k]),
                    decreases failures.len() - i,
                {
                    let mut t = failures[i].0.clone();
                    t.append(": ");
                    t.append(failures[i].1.as_str());
                    texts.push(t);
                    i = i + 1;
                }
                let mut s = string_from("presets failed: ");
                append_joined(&mut s, &texts, "; ");
                assert(views(texts@) =~= Seq::new(
                    failures@.len(),
                    |k: int| failure_text(failures@[k]),
                ));
                s
            },
        }
    }
}

/// The written items when nothing failed, else `BatchFailed` with every failure.
pub fn batch_outcome<T>(written: Vec<T>, failures: Vec<(String, String)>) -> (r: Result<Vec<T>>)
    ensures
        match r {
            Ok(w) => failures@.len() == 0 && w@ == written@,
            Err(e) => failures@.len() > 0 && (e matches Error::BatchFailed { failures: f }
                && f@ == failures@),
        },
{
    if failures.len() == 0 {
        Ok(written)
    } else {
        Err(Error::BatchFailed { failures })
    }
}

} // verus!
