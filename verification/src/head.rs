use vstd::prelude::*;

verus! {

/// The role of a connection.
#[derive(Debug, Clone, Copy, PartialEq, Eq, Structural)]
pub enum LineType {
    Fox,
    Caller,
    Operator,
    Spider,
}

/// The log files kept for each line type.
#[derive(Debug, Clone, Copy, PartialEq, Eq, Structural)]
pub enum LogTag {
    Default,
    Event,
    Establish,
    GoodBye,
    Unexpected,
}

/// Position of a line type in declaration order.
pub open spec fn line_type_index(t: LineType) -> int {
    match t {
        LineType::Fox => 0,
        LineType::Caller => 1,
        LineType::Operator => 2,
        LineType::Spider => 3,
    }
}

/// The line type declared right after `t`, if any.
pub open spec fn line_type_successor(t: LineType) -> Option<LineType> {
    match t {
        LineType::Fox => Some(LineType::Caller),
        LineType::Caller => Some(LineType::Operator),
        LineType::Operator => Some(LineType::Spider),
        LineType::Spider => None,
    }
}

/// Name of a line type as it appears in log paths.
pub open spec fn line_type_name(t: LineType) -> Seq<char> {
    match t {
        LineType::Fox => seq!['F', 'o', 'x'],
        LineType::Caller => seq!['C', 'a', 'l', 'l', 'e', 'r'],
        LineType::Operator => seq!['O', 'p', 'e', 'r', 'a', 't', 'o', 'r'],
        LineType::Spider => seq!['S', 'p', 'i', 'd', 'e', 'r'],
    }
}

/// Name of a log tag as it appears in log file names.
pub open spec fn log_tag_name(t: LogTag) -> Seq<char> {
    match t {
        LogTag::Default => seq!['D', 'e', 'f', 'a', 'u', 'l', 't'],
        LogTag::Event => seq!['E', 'v', 'e', 'n', 't'],
        LogTag::Establish => seq!['E', 's', 't', 'a', 'b', 'l', 'i', 's', 'h'],
        LogTag::GoodBye => seq!['G', 'o', 'o', 'd', 'B', 'y', 'e'],
        LogTag::Unexpected => seq!['U', 'n', 'e', 'x', 'p', 'e', 'c', 't', 'e', 'd'],
    }
}

/// All log tags, in declaration order.
pub open spec fn all_log_tags() -> Seq<LogTag> {
    seq![LogTag::Default, LogTag::Event, LogTag::Establish, LogTag::GoodBye, LogTag::Unexpected]
}

impl LineType {
    /// The next line type in declaration order (`None` after the last one).
    pub fn next(&self) -> (r: Option<LineType>)
        ensures
            r == line_type_successor(*self),
    {
        match self {
            LineType::Fox => Some(LineType::Caller),
            LineType::Caller => Some(LineType::Operator),
            LineType::Operator => Some(LineType::Spider),
            LineType::Spider => None,
        }
    }

    /// The variant's name.
    pub fn name(&self) -> (r: &'static str)
        ensures
            r@ == line_type_name(*self),
    {
        match self {
            LineType::Fox => {
                proof {
                    reveal_strlit("Fox");
                }
                "Fox"
            },
            LineType::Caller => {
                proof {
                    reveal_strlit("Caller");
                }
                "Caller"
            },
            LineType::Operator => {
                proof {
                    reveal_strlit("Operator");
                }
                "Operator"
            },
            LineType::Spider => {
                proof {
                    reveal_strlit("Spider");
                }
                "Spider"
            },
        }
    }
}

impl LogTag {
    /// Every log tag, in declaration order.
    pub fn all() -> (r: Vec<LogTag>)
        ensures
            r@ == all_log_tags(),
    {
        let mut v: Vec<LogTag> = Vec::new();
        v.push(LogTag::Default);
        v.push(LogTag::Event);
        v.push(LogTag::Establish);
        v.push(LogTag::GoodBye);
        v.push(LogTag::Unexpected);
        v
    }

    /// The variant's name.
    pub fn name(&self) -> (r: &'static str)
        ensures
            r@ == log_tag_name(*self),
    {
        match self {
            LogTag::Default => {
                proof {
                    reveal_strlit("Default");
                }
                "Default"
            },
            LogTag::Event => {
                proof {
                    reveal_strlit("Event");
                }
                "Event"
            },
            LogTag::Establish => {
                proof {
                    reveal_strlit("Establish");
                }
                "Establish"
            },
            LogTag::GoodBye => {
                proof {
                    reveal_strlit("GoodBye");
                }
                "GoodBye"
            },
            LogTag::Unexpected => {
                proof {
                    reveal_strlit("Unexpected");
                }
                "Unexpected"
            },
        }
    }
}

/// Following `next` from the first line type visits every line type once,
/// in declaration order, and ends after the last.
pub proof fn lemma_line_type_order(t: LineType)
    ensures
        line_type_successor(t) is Some ==> line_type_index(line_type_successor(t)->0)
            == line_type_index(t) + 1,
        line_type_successor(t) is None <==> line_type_index(t) == 3,
        0 <= line_type_index(t) < 4,
{
}

/// Every log tag occurs exactly once in `all_log_tags()`.
pub proof fn lemma_all_log_tags_complete(t: LogTag)
    ensures
        all_log_tags().contains(t),
        forall|i: int, j: int|
            0 <= i < j < all_log_tags().len() ==> all_log_tags()[i] != all_log_tags()[j],
{
    match t {
        LogTag::Default => assert(all_log_tags()[0] == t),
        LogTag::Event => assert(all_log_tags()[1] == t),
        LogTag::Establish => assert(all_log_tags()[2] == t),
        LogTag::GoodBye => assert(all_log_tags()[3] == t),
        LogTag::Unexpected => assert(all_log_tags()[4] == t),
    }
}

} // verus!
