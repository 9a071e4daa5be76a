use vstd::prelude::*;
use vstd::string::*;
use crate::config::Config;
use crate::head::{all_log_tags, line_type_name, log_tag_name, LineType, LogTag};

verus! {

/// Where the log `name` of line type `kind` is kept:
/// `log/<kind>/<name>.log`.
pub open spec fn log_path(kind: LineType, name: Seq<char>) -> Seq<char> {
    seq!['l', 'o', 'g', '/'] + line_type_name(kind) + seq!['/'] + name + seq!['.', 'l', 'o', 'g']
}

/// The directory holding the logs of line type `kind`: `log/<kind>`.
pub open spec fn log_dir(kind: LineType) -> Seq<char> {
    seq!['l', 'o', 'g', '/'] + line_type_name(kind)
}

/// Paths of the logs of every tag, for line type `kind`, in tag order.
pub open spec fn tag_paths(kind: LineType) -> Seq<Seq<char>> {
    all_log_tags().map_values(|t: LogTag| log_path(kind, log_tag_name(t)))
}

/// Log file layout.
pub struct Log;

impl Log {
    /// The path of the log `name` of line type `kind`.
    pub fn get_path(kind: LineType, name: &str) -> (r: String)
        ensures
            r@ == log_path(kind, name@),
    {
        let mut s = String::from_str("log/");
        s.append(kind.name());
        s.append("/");
        s.append(name);
        s.append(".log");
        proof {
            reveal_strlit("log/");
            reveal_strlit("/");
            reveal_strlit(".log");
            assert(s@ =~= log_path(kind, name@));
        }
        s
    }

    /// The path of the heart-beat log.
    pub fn heart_beat_file() -> (r: String)
        ensures
            r@ == seq![
                'l', 'o', 'g', '/', 'h', 'e', 'a', 'r', 't', '_', 'b', 'e', 'a', 't', '.', 'l', 'o', 'g',
            ],
    {
        proof {
            reveal_strlit("log/heart_beat.log");
        }
        String::from_str("log/heart_beat.log")
    }

    /// The path of the event log.
    pub fn event_file() -> (r: String)
        ensures
            r@ == seq!['l', 'o', 'g', '/', 'e', 'v', 'e', 'n', 't', '.', 'l', 'o', 'g'],
    {
        proof {
            reveal_strlit("log/event.log");
        }
        String::from_str("log/event.log")
    }

    /// The log file to create for `name` of line type `kind`; `None` when
    /// logs are off.
    pub fn new(config: &Config, kind: LineType, name: &str) -> (r: Option<String>)
        ensures
            config@.write_log ==> r is Some && r->0@ == log_path(kind, name@),
            !config@.write_log ==> r is None,
    {
        if config.log_off() {
            return None;
        }
        Some(Log::get_path(kind, name))
    }

    /// The directory and the per-tag log files to create for line type
    /// `kind`; `None` when logs are off.
    pub fn create_dir(config: &Config, kind: LineType) -> (r: Option<(String, Vec<String>)>)
        ensures
            config@.write_log ==> match r {
                Some((dir, files)) => dir@ == log_dir(kind) && files@.len() == tag_paths(kind).len()
                    && forall|i: int|
                    0 <= i < tag_paths(kind).len() ==> (#[trigger] files@[i])@ == tag_paths(kind)[i],
                None => false,
            },
            !config@.write_log ==> r is None,
    {
        if config.log_off() {
            return None;
        }
        let mut dir = String::from_str("log/");
        dir.append(kind.name());
        proof {
            reveal_strlit("log/");
            assert(dir@ =~= log_dir(kind));
        }
        let tags = LogTag::all();
        let mut files: Vec<String> = Vec::new();
        let n = tags.len();
        let mut i: usize = 0;
        while i < n
            invariant
                tags@ == all_log_tags(),
                n == tags@.len(),
                i <= n,
                files@.len() == i,
                forall|j: int| 0 <= j < i ==> (#[trigger] files@[j])@ == tag_paths(kind)[j],
            decreases n - i,
        {
            let p = Log::get_path(kind, tags[i].name());
            files.push(p);
            i = i + 1;
        }
        Some((dir, files))
    }
}

} // verus!
