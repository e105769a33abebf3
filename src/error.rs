use vstd::prelude::*;

verus! {

/// The ways a call into the library can fail.
#[derive(Debug)]
pub enum MqError {
    /// The content could not be parsed in the selected input format.
    Parse(String),
    /// The query could not be evaluated.
    Eval(String),
    /// HTML could not be converted to Markdown.
    Conversion(String),
    /// A result index at or past the end of the result.
    OutOfRange { index: usize, length: usize },
}

pub open spec fn digit_char(d: nat) -> char {
    if d == 0 {
        '0'
    } else if d == 1 {
        '1'
    } else if d == 2 {
        '2'
    } else if d == 3 {
        '3'
    } else if d == 4 {
        '4'
    } else if d == 5 {
        '5'
    } else if d == 6 {
        '6'
    } else if d == 7 {
        '7'
    } else if d == 8 {
        '8'
    } else {
        '9'
    }
}

/// The decimal digits of `n`, most significant first, without leading zeros.
pub open spec fn decimal_of(n: nat) -> Seq<char>
    decreases n,
{
    if n < 10 {
        seq![digit_char(n)]
    } else {
        decimal_of(n / 10).push(digit_char(n % 10))
    }
}

pub open spec fn parse_prefix() -> Seq<char> {
    "Error parsing input: "@
}

pub open spec fn eval_prefix() -> Seq<char> {
    "Error evaluating query: "@
}

pub open spec fn conversion_prefix() -> Seq<char> {
    "Error converting HTML to Markdown: "@
}

/// The human-readable message of an error.
pub open spec fn message_of(e: MqError) -> Seq<char> {
    match e {
        MqError::Parse(m) => parse_prefix() + m@,
        MqError::Eval(m) => eval_prefix() + m@,
        MqError::Conversion(m) => conversion_prefix() + m@,
        MqError::OutOfRange { index, length } => "Index "@ + decimal_of(index as nat)
            + " out of range for MQResult with length "@ + decimal_of(length as nat),
    }
}

fn digit_str(d: usize) -> (r: &'static str)
    requires
        d < 10,
    ensures
        r@ == seq![digit_char(d as nat)],
{
    proof {
        reveal_strlit("0");
        reveal_strlit("1");
        reveal_strlit("2");
        reveal_strlit("3");
        reveal_strlit("4");
        reveal_strlit("5");
        reveal_strlit("6");
        reveal_strlit("7");
        reveal_strlit("8");
        reveal_strlit("9");
    }
    match d {
        0 => "0",
        1 => "1",
        2 => "2",
        3 => "3",
        4 => "4",
        5 => "5",
        6 => "6",
        7 => "7",
        8 => "8",
        _ => "9",
    }
}

/// `n` written in decimal.
pub fn decimal(n: usize) -> (r: String)
    ensures
        r@ == decimal_of(n as nat),
    decreases n,
{
    if n < 10 {
        String::from_str(digit_str(n))
    } else {
        let mut s = decimal(n / 10);
        s.append(digit_str(n % 10));
        s
    }
}

impl MqError {
    /// The message the host shows for this error; failures of the parser,
    /// the evaluator and the converter are told apart by a fixed prefix.
    pub fn message(&self) -> (r: String)
        ensures
            r@ == message_of(*self),
    {
        match self {
            MqError::Parse(m) => {
                let mut s = String::from_str("Error parsing input: ");
                s.append(m.as_str());
                s
            },
            MqError::Eval(m) => {
                let mut s = String::from_str("Error evaluating query: ");
                s.append(m.as_str());
                s
            },
            MqError::Conversion(m) => {
                let mut s = String::from_str("Error converting HTML to Markdown: ");
                s.append(m.as_str());
                s
            },
            MqError::OutOfRange { index, length } => {
                let mut s = String::from_str("Index ");
                s.append(decimal(*index).as_str());
                s.append(" out of range for MQResult with length ");
                s.append(decimal(*length).as_str());
                s
            },
        }
    }
}

} // verus!
