//! How a child process ended.

use vstd::prelude::*;
use vstd::string::StringExecFns;

use crate::decimal::append_decimal;

verus! {

/// What is known of the end of a process: its exit code, or the signal that
/// terminated it.
pub struct Ending {
    pub code: Option<i32>,
    pub signal: Option<i32>,
}

impl Ending {
    /// The process is known to have exited, or to have been killed by a
    /// signal, and not both.
    pub open spec fn is_conclusive(self) -> bool {
        self.code is Some <==> self.signal is None
    }

    /// The process exited with code 0.
    pub open spec fn is_success(self) -> bool {
        self.code == Some(0i32)
    }

    /// The ending in words. A code goes before a signal.
    pub open spec fn text(self) -> Seq<char> {
        if self.code is Some {
            "exit code "@ + crate::decimal::decimal(self.code->0 as int)
        } else if self.signal is Some {
            "signal "@ + crate::decimal::decimal(self.signal->0 as int)
        } else {
            "unknown exit"@
        }
    }
}

/// Whether `text` is `label` and then an integer in which a reader finds `i`.
pub open spec fn says(text: Seq<char>, label: Seq<char>, i: int) -> bool {
    &&& text.len() > label.len()
    &&& text.take(label.len() as int) == label
    &&& crate::decimal::reads_as(text.skip(label.len() as int), i)
}

/// The exit status of a PTY child process.
///
/// Exactly one of `code` or `signal` is `Some` after a normal exit.
#[derive(Debug, PartialEq, Eq, Structural)]
pub struct ExitStatus {
    code: Option<i32>,
    signal: Option<i32>,
}

impl View for ExitStatus {
    type V = Ending;

    closed spec fn view(&self) -> Ending {
        Ending { code: self.code, signal: self.signal }
    }
}

impl Clone for ExitStatus {
    fn clone(&self) -> (status: Self)
        ensures
            status == *self,
    {
        Self { code: self.code, signal: self.signal }
    }
}

impl ExitStatus {
    /// Create an exit status from an exit code.
    pub fn from_code(code: i32) -> (status: Self)
        ensures
            status@ == (Ending { code: Some(code), signal: None }),
            forall|other: ExitStatus| #![trigger other@] other == status <==> other@ == status@,
            status@.is_conclusive(),
            status@.is_success() <==> code == 0,
    {
        Self { code: Some(code), signal: None }
    }

    /// Create an exit status from a signal number.
    pub fn from_signal(signal: i32) -> (status: Self)
        ensures
            status@ == (Ending { code: None, signal: Some(signal) }),
            forall|other: ExitStatus| #![trigger other@] other == status <==> other@ == status@,
            status@.is_conclusive(),
            !status@.is_success(),
    {
        Self { code: None, signal: Some(signal) }
    }

    /// Create an exit status from what the platform reports, which may be
    /// neither a code nor a signal.
    pub fn from_report(code: Option<i32>, signal: Option<i32>) -> (status: Self)
        ensures
            status@ == (Ending { code, signal }),
            forall|other: ExitStatus| #![trigger other@] other == status <==> other@ == status@,
    {
        Self { code, signal }
    }

    /// The exit code, if the process exited normally.
    pub fn code(&self) -> (code: Option<i32>)
        ensures
            code == self@.code,
    {
        self.code
    }

    /// The signal number that terminated the process, if killed by a signal.
    pub fn signal(&self) -> (signal: Option<i32>)
        ensures
            signal == self@.signal,
    {
        self.signal
    }

    /// Returns `true` if the process exited successfully (code 0).
    pub fn success(&self) -> (success: bool)
        ensures
            success == self@.is_success(),
            success <==> self@.code == Some(0i32),
    {
        match self.code {
            Some(code) => code == 0,
            None => false,
        }
    }

    /// The status in words: `exit code N`, `signal N` or `unknown exit`.
    pub fn to_string(&self) -> (text: String)
        ensures
            text@ == self@.text(),
            self@.code matches Some(code) ==> says(text@, "exit code "@, code as int),
            self@.code is None ==> (self@.signal matches Some(signal) ==> says(
                text@,
                "signal "@,
                signal as int,
            )),
            self@.code is None && self@.signal is None ==> text@ == "unknown exit"@,
    {
        proof {
            law_text_says_the_ending(self@);
        }
        if let Some(code) = self.code {
            let mut text = String::from_str("exit code ");
            append_decimal(&mut text, code);
            text
        } else if let Some(signal) = self.signal {
            let mut text = String::from_str("signal ");
            append_decimal(&mut text, signal);
            text
        } else {
            String::from_str("unknown exit")
        }
    }
}

/// A status is its ending: two statuses are equal exactly where their endings
/// are.
pub proof fn law_view_fixes_status(a: ExitStatus, b: ExitStatus)
    ensures
        a == b <==> a@ == b@,
{
}

/// A code goes into a status and comes out of it unchanged: statuses of two
/// codes are equal exactly where the codes are, and so are those of two signals.
pub proof fn law_codes_and_signals_are_kept(
    a: ExitStatus,
    b: ExitStatus,
    first: i32,
    second: i32,
)
    ensures
        a@ == (Ending { code: Some(first), signal: None }) && b@ == (Ending {
            code: Some(second),
            signal: None,
        }) ==> (a == b <==> first == second),
        a@ == (Ending { code: None, signal: Some(first) }) && b@ == (Ending {
            code: None,
            signal: Some(second),
        }) ==> (a == b <==> first == second),
        a@ == (Ending { code: Some(first), signal: None }) && b@ == (Ending {
            code: None,
            signal: Some(second),
        }) ==> a != b,
{
}

/// The code tells what a conclusive status is: it holds the code `code`
/// exactly where it is the status made from that code.
pub proof fn law_code_fixes_status(status: ExitStatus, made: ExitStatus, code: i32)
    requires
        status@.is_conclusive(),
        made@ == (Ending { code: Some(code), signal: None }),
    ensures
        status@.code == Some(code) <==> status == made,
{
}

/// The signal tells what a conclusive status is: it holds the signal `signal`
/// exactly where it is the status made from that signal.
pub proof fn law_signal_fixes_status(status: ExitStatus, made: ExitStatus, signal: i32)
    requires
        status@.is_conclusive(),
        made@ == (Ending { code: None, signal: Some(signal) }),
    ensures
        status@.signal == Some(signal) <==> status == made,
{
}

/// The text tells statuses apart: two conclusive statuses have the same text
/// exactly where they are equal.
pub proof fn law_text_tells_statuses_apart(a: ExitStatus, b: ExitStatus)
    requires
        a@.is_conclusive(),
        b@.is_conclusive(),
    ensures
        a@.text() == b@.text() <==> a == b,
{
    if a@.text() == b@.text() {
        law_text_tells_endings_apart(a@, b@);
    }
}

/// The text tells endings apart: two conclusive endings with the same text are
/// the same ending.
pub proof fn law_text_tells_endings_apart(a: Ending, b: Ending)
    requires
        a.is_conclusive(),
        b.is_conclusive(),
        a.text() == b.text(),
    ensures
        a == b,
{
    reveal_strlit("exit code ");
    reveal_strlit("signal ");
    let code = "exit code "@;
    let signal = "signal "@;
    let text = a.text();
    if a.code is Some {
        assert(text[0] == 'e');
    } else {
        assert(text[0] == 's');
    }
    if b.code is Some {
        assert(text[0] == 'e');
        let (i, j) = (a.code->0 as int, b.code->0 as int);
        assert(crate::decimal::decimal(i) =~= text.skip(code.len() as int));
        assert(crate::decimal::decimal(j) =~= text.skip(code.len() as int));
        crate::decimal::lemma_decimal_injective(i, j);
    } else {
        assert(text[0] == 's');
        let (i, j) = (a.signal->0 as int, b.signal->0 as int);
        assert(crate::decimal::decimal(i) =~= text.skip(signal.len() as int));
        assert(crate::decimal::decimal(j) =~= text.skip(signal.len() as int));
        crate::decimal::lemma_decimal_injective(i, j);
    }
}

/// The text says what the ending is: a reader finds the code in it behind
/// `exit code `, without a code the signal behind `signal `, and without either
/// `unknown exit`.
pub proof fn law_text_says_the_ending(a: Ending)
    ensures
        a.code matches Some(code) ==> says(a.text(), "exit code "@, code as int),
        a.code is None ==> (a.signal matches Some(signal) ==> says(
            a.text(),
            "signal "@,
            signal as int,
        )),
        a.code is None && a.signal is None ==> a.text() == "unknown exit"@,
{
    if a.code is Some {
        let code = a.code->0 as int;
        crate::decimal::law_decimal_reads_back(code);
        let label = "exit code "@;
        assert(a.text().take(label.len() as int) =~= label);
        assert(a.text().skip(label.len() as int) =~= crate::decimal::decimal(code));
    } else if a.signal is Some {
        let signal = a.signal->0 as int;
        crate::decimal::law_decimal_reads_back(signal);
        let label = "signal "@;
        assert(a.text().take(label.len() as int) =~= label);
        assert(a.text().skip(label.len() as int) =~= crate::decimal::decimal(signal));
    }
}

/// Success is code 0 and nothing else: no other code and no signal is success.
pub proof fn law_success_is_code_zero(a: Ending)
    ensures
        a.is_success() <==> a.code == Some(0i32),
{
}

/// An inconclusive ending with neither code nor signal has a text of its own.
pub proof fn law_unknown_text_is_its_own(a: Ending)
    ensures
        a.text() == "unknown exit"@ <==> a.code is None && a.signal is None,
{
    reveal_strlit("exit code ");
    reveal_strlit("signal ");
    reveal_strlit("unknown exit");
    if a.code is Some {
        assert(a.text()[0] == 'e');
    } else if a.signal is Some {
        assert(a.text()[0] == 's');
    }
    assert("unknown exit"@[0] == 'u');
}

} // verus!
