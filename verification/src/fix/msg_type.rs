//! FIX message types (tag 35).
use vstd::prelude::*;
use vstd::string::*;

verus! {

/// The message types this engine names; anything else is `Unknown`.
#[derive(Debug, Clone, PartialEq, Structural)]
pub enum MsgType {
    Logon,
    Logout,
    Heartbeat,
    TestRequest,
    ResendRequest,
    SequenceReset,
    ExecutionReport,
    OrderCancelReject,
    NewOrderSingle,
    OrderCancelRequest,
    Unknown,
}

/// The wire code of each message type; `Unknown` is written `?`.
pub open spec fn fix_code(t: MsgType) -> char {
    match t {
        MsgType::Logon => 'A',
        MsgType::Logout => '5',
        MsgType::Heartbeat => '0',
        MsgType::TestRequest => '1',
        MsgType::ResendRequest => '2',
        MsgType::SequenceReset => '4',
        MsgType::ExecutionReport => '8',
        MsgType::OrderCancelReject => '9',
        MsgType::NewOrderSingle => 'D',
        MsgType::OrderCancelRequest => 'F',
        MsgType::Unknown => '?',
    }
}

/// The tag 35 value that a message type is written as.
pub open spec fn fix_value(t: MsgType) -> Seq<char> {
    seq![fix_code(t)]
}

/// The message type a tag 35 value names: a known one-character code, or
/// `Unknown` for any other text.
pub open spec fn msg_type_of(v: Seq<char>) -> MsgType {
    if v.len() != 1 {
        MsgType::Unknown
    } else if v[0] == 'A' {
        MsgType::Logon
    } else if v[0] == '5' {
        MsgType::Logout
    } else if v[0] == '0' {
        MsgType::Heartbeat
    } else if v[0] == '1' {
        MsgType::TestRequest
    } else if v[0] == '2' {
        MsgType::ResendRequest
    } else if v[0] == '4' {
        MsgType::SequenceReset
    } else if v[0] == '8' {
        MsgType::ExecutionReport
    } else if v[0] == '9' {
        MsgType::OrderCancelReject
    } else if v[0] == 'D' {
        MsgType::NewOrderSingle
    } else if v[0] == 'F' {
        MsgType::OrderCancelRequest
    } else {
        MsgType::Unknown
    }
}

/// Reading back the value a known type is written as gives that type.
pub proof fn law_fix_value_roundtrip(t: MsgType)
    ensures
        msg_type_of(fix_value(t)) == t,
{
}

/// The FIX code table: Logon is `A`, Logout `5`, Heartbeat `0`, TestRequest
/// `1`, ResendRequest `2`, SequenceReset `4`, ExecutionReport `8`,
/// OrderCancelReject `9`, NewOrderSingle `D`, OrderCancelRequest `F`, and
/// `Unknown` is written `?`. A tag 35 value reads as a type exactly when it
/// is that type's code, and as `Unknown` exactly when it is no code.
pub proof fn law_fix_code_table(v: Seq<char>)
    ensures
        fix_value(MsgType::Logon) == seq!['A'],
        fix_value(MsgType::Logout) == seq!['5'],
        fix_value(MsgType::Heartbeat) == seq!['0'],
        fix_value(MsgType::TestRequest) == seq!['1'],
        fix_value(MsgType::ResendRequest) == seq!['2'],
        fix_value(MsgType::SequenceReset) == seq!['4'],
        fix_value(MsgType::ExecutionReport) == seq!['8'],
        fix_value(MsgType::OrderCancelReject) == seq!['9'],
        fix_value(MsgType::NewOrderSingle) == seq!['D'],
        fix_value(MsgType::OrderCancelRequest) == seq!['F'],
        fix_value(MsgType::Unknown) == seq!['?'],
        msg_type_of(v) == MsgType::Logon <==> v == seq!['A'],
        msg_type_of(v) == MsgType::Logout <==> v == seq!['5'],
        msg_type_of(v) == MsgType::Heartbeat <==> v == seq!['0'],
        msg_type_of(v) == MsgType::TestRequest <==> v == seq!['1'],
        msg_type_of(v) == MsgType::ResendRequest <==> v == seq!['2'],
        msg_type_of(v) == MsgType::SequenceReset <==> v == seq!['4'],
        msg_type_of(v) == MsgType::ExecutionReport <==> v == seq!['8'],
        msg_type_of(v) == MsgType::OrderCancelReject <==> v == seq!['9'],
        msg_type_of(v) == MsgType::NewOrderSingle <==> v == seq!['D'],
        msg_type_of(v) == MsgType::OrderCancelRequest <==> v == seq!['F'],
        msg_type_of(v) == MsgType::Unknown <==> !(v == seq!['A'] || v == seq!['5'] || v == seq!['0'] || v == seq!['1'] || v == seq!['2'] || v == seq!['4'] || v == seq!['8'] || v == seq!['9'] || v == seq!['D'] || v == seq!['F']),
{
    if v.len() == 1 {
        assert(v =~= seq![v[0]]);
    }
}

impl MsgType {
    /// Parse MsgType from FIX tag 35 value.
    pub fn from_fix_value(val: &str) -> (t: MsgType)
        ensures
            t == msg_type_of(val@),
    {
        if val.unicode_len() != 1 {
            return MsgType::Unknown;
        }
        let c = val.get_char(0);
        if c == 'A' {
            MsgType::Logon
        } else if c == '5' {
            MsgType::Logout
        } else if c == '0' {
            MsgType::Heartbeat
        } else if c == '1' {
            MsgType::TestRequest
        } else if c == '2' {
            MsgType::ResendRequest
        } else if c == '4' {
            MsgType::SequenceReset
        } else if c == '8' {
            MsgType::ExecutionReport
        } else if c == '9' {
            MsgType::OrderCancelReject
        } else if c == 'D' {
            MsgType::NewOrderSingle
        } else if c == 'F' {
            MsgType::OrderCancelRequest
        } else {
            MsgType::Unknown
        }
    }

    /// Convert to FIX tag 35 value.
    pub fn to_fix_value(&self) -> (s: &'static str)
        ensures
            s@ == fix_value(*self),
    {
        match self {
            MsgType::Logon => {
                proof {
                    reveal_strlit("A");
                }
                "A"
            },
            MsgType::Logout => {
                proof {
                    reveal_strlit("5");
                }
                "5"
            },
            MsgType::Heartbeat => {
                proof {
                    reveal_strlit("0");
                }
                "0"
            },
            MsgType::TestRequest => {
                proof {
                    reveal_strlit("1");
                }
                "1"
            },
            MsgType::ResendRequest => {
                proof {
                    reveal_strlit("2");
                }
                "2"
            },
            MsgType::SequenceReset => {
                proof {
                    reveal_strlit("4");
                }
                "4"
            },
            MsgType::ExecutionReport => {
                proof {
                    reveal_strlit("8");
                }
                "8"
            },
            MsgType::OrderCancelReject => {
                proof {
                    reveal_strlit("9");
                }
                "9"
            },
            MsgType::NewOrderSingle => {
                proof {
                    reveal_strlit("D");
                }
                "D"
            },
            MsgType::OrderCancelRequest => {
                proof {
                    reveal_strlit("F");
                }
                "F"
            },
            MsgType::Unknown => {
                proof {
                    reveal_strlit("?");
                }
                "?"
            },
        }
    }

    /// A copy of this message type.
    pub(crate) fn copied(&self) -> (t: MsgType)
        ensures
            t == *self,
    {
        match self {
            MsgType::Logon => MsgType::Logon,
            MsgType::Logout => MsgType::Logout,
            MsgType::Heartbeat => MsgType::Heartbeat,
            MsgType::TestRequest => MsgType::TestRequest,
            MsgType::ResendRequest => MsgType::ResendRequest,
            MsgType::SequenceReset => MsgType::SequenceReset,
            MsgType::ExecutionReport => MsgType::ExecutionReport,
            MsgType::OrderCancelReject => MsgType::OrderCancelReject,
            MsgType::NewOrderSingle => MsgType::NewOrderSingle,
            MsgType::OrderCancelRequest => MsgType::OrderCancelRequest,
            MsgType::Unknown => MsgType::Unknown,
        }
    }
}

} // verus!
