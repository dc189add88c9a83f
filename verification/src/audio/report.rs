//! What is shown of a result, and when a result is kept in a skip file.

use vstd::prelude::*;
use vstd::string::StringExecFns;

use super::analyzer::{str_eq, Analyzer};
use super::comparator::{Comparator, SearchResult};
use super::{DEFAULT_HASH_MATCH_THRESHOLD, DEFAULT_MIN_ENDING_DURATION, DEFAULT_MIN_OPENING_DURATION};
use crate::util::{format_time, format_time_spec};

verus! {

/// A range as two quoted times with a dash between them.
pub open spec fn range_text(range: (u64, u64)) -> Seq<char> {
    "\""@ + format_time_spec(range.0) + "\"-\""@ + format_time_spec(range.1) + "\""@
}

/// The line that shows the opening of a result.
pub open spec fn opening_line(result: SearchResult) -> Seq<char> {
    match result.opening {
        Some(range) => "* Opening - "@ + range_text(range),
        None => "* Opening - N/A"@,
    }
}

/// The line that shows the ending of a result.
pub open spec fn ending_line(result: SearchResult) -> Seq<char> {
    match result.ending {
        Some(range) => "* Ending - "@ + range_text(range),
        None => "* Ending - N/A"@,
    }
}

/// Appends a range as two quoted times with a dash between them.
fn push_range(line: &mut String, range: (u64, u64))
    ensures
        final(line)@ == old(line)@ + range_text(range),
{
    let start = format_time(range.0);
    let end = format_time(range.1);
    line.append("\"");
    line.append(start.as_str());
    line.append("\"-\"");
    line.append(end.as_str());
    line.append("\"");
    assert(line@ =~= old(line)@ + range_text(range));
}

impl Comparator {
    /// The lines that show a result: one for the opening and, where endings
    /// are asked for, one for the ending.
    pub fn display_opening_ending_info(&self, result: SearchResult) -> (lines: Vec<String>)
        ensures
            lines@.len() == if self.include_endings {
                2int
            } else {
                1int
            },
            lines@[0]@ == opening_line(result),
            self.include_endings ==> lines@[1]@ == ending_line(result),
    {
        let mut lines: Vec<String> = Vec::new();
        let opening = match result.opening {
            Some(range) => {
                let mut line = String::from_str("* Opening - ");
                push_range(&mut line, range);
                line
            },
            None => String::from_str("* Opening - N/A"),
        };
        lines.push(opening);
        if self.include_endings {
            let ending = match result.ending {
                Some(range) => {
                    let mut line = String::from_str("* Ending - ");
                    push_range(&mut line, range);
                    line
                },
                None => String::from_str("* Ending - N/A"),
            };
            lines.push(ending);
        }
        lines
    }

    /// Whether a result is worth a skip file: it holds an opening or an
    /// ending.
    pub fn needs_skip_file(result: &SearchResult) -> (b: bool)
        ensures
            b == (result.opening.is_some() || result.ending.is_some()),
    {
        result.opening.is_some() || result.ending.is_some()
    }

    /// Whether the skip file of a video still stands for the video: there is
    /// one, and it carries the checksum that the video has now.
    pub fn check_skip_file(skip_md5: Option<&str>, md5: &str) -> (b: bool)
        ensures
            b == (skip_md5.is_some() && skip_md5.unwrap()@ == md5@),
    {
        match skip_md5 {
            Some(s) => str_eq(s, md5),
            None => false,
        }
    }
}

impl From<Analyzer> for Comparator {
    /// A comparator for the videos of an analyzer, with the default settings.
    fn from(analyzer: Analyzer) -> (c: Self) {
        Comparator::from_files(analyzer.videos)
    }
}

impl vstd::std_specs::convert::FromSpecImpl<Analyzer> for Comparator {
    open spec fn obeys_from_spec() -> bool {
        true
    }

    open spec fn from_spec(analyzer: Analyzer) -> Self {
        Comparator {
            videos: analyzer.videos,
            include_endings: false,
            hash_match_threshold: DEFAULT_HASH_MATCH_THRESHOLD as u32,
            min_opening_duration: (DEFAULT_MIN_OPENING_DURATION * 1_000_000_000) as u64,
            min_ending_duration: (DEFAULT_MIN_ENDING_DURATION * 1_000_000_000) as u64,
            time_padding: 0,
        }
    }
}

} // verus!
