//! The report of registering the subscriptions of a service.

use vstd::prelude::*;
use vstd::string::StringExecFns;
use crate::text::push_char;

verus! {

pub open spec fn digit_char(d: nat) -> char {
    if d == 0 {
        '0'
    } else if d == 1 {
        '1'
    } else if d == 2 {
        '2'
    } else if d == 3 {
        '3'
    } else if d == 4 {
        '4'
    } else if d == 5 {
        '5'
    } else if d == 6 {
        '6'
    } else if d == 7 {
        '7'
    } else if d == 8 {
        '8'
    } else {
        '9'
    }
}

/// The decimal digits of `n`.
pub open spec fn decimal_spec(n: nat) -> Seq<char>
    decreases n,
{
    if n < 10 {
        seq![digit_char(n)]
    } else {
        decimal_spec(n / 10).push(digit_char(n % 10))
    }
}

fn digit(d: usize) -> (r: char)
    requires
        d < 10,
    ensures
        r == digit_char(d as nat),
{
    if d == 0 {
        '0'
    } else if d == 1 {
        '1'
    } else if d == 2 {
        '2'
    } else if d == 3 {
        '3'
    } else if d == 4 {
        '4'
    } else if d == 5 {
        '5'
    } else if d == 6 {
        '6'
    } else if d == 7 {
        '7'
    } else if d == 8 {
        '8'
    } else {
        '9'
    }
}

/// `n` written in decimal.
pub fn decimal(n: usize) -> (r: String)
    ensures
        r@ == decimal_spec(n as nat),
    decreases n,
{
    if n < 10 {
        let mut s = String::new();
        push_char(&mut s, digit(n));
        s
    } else {
        let mut s = decimal(n / 10);
        push_char(&mut s, digit(n % 10));
        s
    }
}

/// The lines joined with line breaks between them.
pub open spec fn join_lines(lines: Seq<Seq<char>>) -> Seq<char>
    decreases lines.len(),
{
    if lines.len() == 0 {
        Seq::empty()
    } else if lines.len() == 1 {
        lines[0]
    } else {
        join_lines(lines.drop_last()) + "\n"@ + lines.last()
    }
}

pub open spec fn failure_message(method: Seq<char>, topic: Seq<char>, error: Seq<char>) -> Seq<char> {
    "Failed to register subscription for handler '"@ + method + "' on topic '"@ + topic + "': "@
        + error
}

pub open spec fn summary_message(failures: Seq<Seq<char>>) -> Seq<char> {
    "Failed to register "@ + decimal_spec(failures.len()) + " subscription(s):\n"@ + join_lines(
        failures,
    )
}

pub open spec fn lines_model(v: Seq<String>) -> Seq<Seq<char>> {
    v.map_values(|s: String| s@)
}

/// The outcome of registering every subscription of a service: registration goes on past a
/// failure, and the failures are reported together at the end.
pub struct RegistrationReport {
    failures: Vec<String>,
}

impl RegistrationReport {
    /// The messages of the failures recorded so far.
    pub closed spec fn failures(&self) -> Seq<Seq<char>> {
        lines_model(self.failures@)
    }

    pub fn new() -> (r: Self)
        ensures
            r.failures() == Seq::<Seq<char>>::empty(),
    {
        let r = RegistrationReport { failures: Vec::new() };
        assert(r.failures() =~= Seq::<Seq<char>>::empty());
        r
    }

    /// Records how registering the subscription of handler `method` to `topic` went.
    pub fn record(&mut self, method: &str, topic: &str, outcome: Result<(), String>)
        ensures
            final(self).failures() == match outcome {
                Ok(()) => old(self).failures(),
                Err(e) => old(self).failures().push(failure_message(method@, topic@, e@)),
            },
    {
        match outcome {
            Ok(()) => {},
            Err(e) => {
                let mut m = String::from_str("Failed to register subscription for handler '");
                m.append(method);
                m.append("' on topic '");
                m.append(topic);
                m.append("': ");
                m.append(e.as_str());
                let ghost before = self.failures@;
                self.failures.push(m);
                assert(lines_model(self.failures@) =~= lines_model(before).push(m@));
            },
        }
    }

    /// `Ok` when every registration succeeded; otherwise one error that counts and lists
    /// the failures.
    pub fn finish(self) -> (r: Result<(), String>)
        ensures
            self.failures().len() == 0 ==> r is Ok,
            self.failures().len() > 0 ==> (r matches Err(m) && m@ == summary_message(self.failures())),
    {
        let n = self.failures.len();
        if n == 0 {
            return Ok(());
        }
        let mut m = String::from_str("Failed to register ");
        m.append(decimal(n).as_str());
        m.append(" subscription(s):\n");
        let ghost head = m@;
        let ghost fs = lines_model(self.failures@);
        m.append(self.failures[0].as_str());
        let mut i: usize = 1;
        proof {
            assert(fs.take(1).drop_last() =~= Seq::<Seq<char>>::empty());
            assert(m@ =~= head + join_lines(fs.take(1)));
        }
        while i < n
            invariant
                1 <= i <= n,
                n == self.failures.len(),
                fs == lines_model(self.failures@),
                m@ == head + join_lines(fs.take(i as int)),
            decreases n - i,
        {
            proof {
                assert(fs.take(i + 1).drop_last() =~= fs.take(i as int));
            }
            m.append("\n");
            m.append(self.failures[i].as_str());
            proof {
                assert(m@ =~= head + join_lines(fs.take(i + 1)));
            }
            i = i + 1;
        }
        proof {
            assert(fs.take(n as int) =~= fs);
        }
        Err(m)
    }
}

} // verus!
