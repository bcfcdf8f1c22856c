//! The command model: a program with its arguments, and how it is shown.
use vstd::prelude::*;
use vstd::string::*;

verus! {

/// Characters that stand unquoted when a command is shown.
pub open spec fn is_safe_char(c: char) -> bool {
    ('a' <= c && c <= 'z') || ('A' <= c && c <= 'Z') || ('0' <= c && c <= '9') || c == '-' || c
        == '_' || c == '.' || c == '/' || c == ':' || c == '@' || c == '='
}

pub open spec fn is_safe_token(s: Seq<char>) -> bool {
    forall|i: int| 0 <= i < s.len() ==> is_safe_char(#[trigger] s[i])
}

pub open spec fn escape_char(c: char) -> Seq<char> {
    if c == '\\' {
        seq!['\\', '\\']
    } else if c == '"' {
        seq!['\\', '"']
    } else {
        seq![c]
    }
}

/// `s` with each backslash and double quote preceded by a backslash.
pub open spec fn escape(s: Seq<char>) -> Seq<char>
    decreases s.len(),
{
    if s.len() == 0 {
        Seq::empty()
    } else {
        escape(s.drop_last()) + escape_char(s.last())
    }
}

/// How one token is shown: `""` when empty, itself when every character is
/// safe, else escaped inside double quotes.
pub open spec fn quote(s: Seq<char>) -> Seq<char> {
    if s.len() == 0 {
        seq!['"', '"']
    } else if is_safe_token(s) {
        s
    } else {
        seq!['"'] + escape(s) + seq!['"']
    }
}

/// The quoted arguments, each preceded by one space.
pub open spec fn quoted_tail(args: Seq<Seq<char>>) -> Seq<char>
    decreases args.len(),
{
    if args.len() == 0 {
        Seq::empty()
    } else {
        quoted_tail(args.drop_last()) + seq![' '] + quote(args.last())
    }
}

/// The quoted program and arguments joined by single spaces.
pub open spec fn rendered(program: Seq<char>, args: Seq<Seq<char>>) -> Seq<char> {
    quote(program) + quoted_tail(args)
}

pub open spec fn views_of(v: Seq<String>) -> Seq<Seq<char>> {
    v.map_values(|s: String| s@)
}

/// What a command is: its program and its arguments as texts.
pub ghost struct CommandView {
    pub program: Seq<char>,
    pub args: Seq<Seq<char>>,
}

/// A program and its ordered arguments, ready to be shown or run.
#[derive(Debug, Clone)]
pub struct InstallCommand {
    pub program: String,
    pub args: Vec<String>,
}

impl View for InstallCommand {
    type V = CommandView;

    open spec fn view(&self) -> CommandView {
        CommandView { program: self.program@, args: views_of(self.args@) }
    }
}

impl InstallCommand {
    /// The program is named: a command always has something to run.
    pub open spec fn wf(&self) -> bool {
        self.program@.len() > 0
    }

    pub fn new(program: String, args: Vec<String>) -> (r: InstallCommand)
        requires
            program@.len() > 0,
        ensures
            r.wf(),
            r.program@ == program@,
            r@.args == views_of(args@),
    {
        InstallCommand { program, args }
    }

    /// The command as one line, each token quoted for display.
    pub fn render(&self) -> (r: String)
        ensures
            r@ == rendered(self@.program, self@.args),
    {
        let mut out = quote_for_display(self.program.as_str());
        let n = self.args.len();
        let mut i: usize = 0;
        proof {
            reveal_strlit(" ");
            assert(self@.args.subrange(0, 0) =~= Seq::<Seq<char>>::empty());
        }
        while i < n
            invariant
                n == self.args@.len(),
                i <= n,
                out@ == quote(self@.program) + quoted_tail(self@.args.subrange(0, i as int)),
            decreases n - i,
        {
            let ghost before = out@;
            out.append(" ");
            let q = quote_for_display(self.args[i].as_str());
            out.append(q.as_str());
            proof {
                let prefix = self@.args.subrange(0, i + 1);
                assert(prefix.drop_last() =~= self@.args.subrange(0, i as int));
                assert(prefix.last() == self.args@[i as int]@);
                reveal_strlit(" ");
                assert(" "@ =~= seq![' ']);
                assert(quoted_tail(prefix) == quoted_tail(prefix.drop_last()) + seq![' '] + quote(
                    prefix.last(),
                ));
                assert(out@ =~= quote(self@.program) + quoted_tail(prefix));
            }
            i = i + 1;
        }
        proof {
            assert(self@.args.subrange(0, n as int) =~= self@.args);
        }
        out
    }
}

/// One token as it is shown: see `quote`.
pub fn quote_for_display(input: &str) -> (r: String)
    ensures
        r@ == quote(input@),
{
    let n = input.unicode_len();
    if n == 0 {
        proof {
            reveal_strlit("\"\"");
        }
        return String::from_str("\"\"");
    }
    let mut i: usize = 0;
    let mut safe = true;
    while i < n
        invariant
            n == input@.len(),
            i <= n,
            safe == (forall|j: int| 0 <= j < i ==> is_safe_char(#[trigger] input@[j])),
        decreases n - i,
    {
        let c = input.get_char(i);
        let ok = ('a' <= c && c <= 'z') || ('A' <= c && c <= 'Z') || ('0' <= c && c <= '9') || c
            == '-' || c == '_' || c == '.' || c == '/' || c == ':' || c == '@' || c == '=';
        safe = safe && ok;
        i = i + 1;
    }
    if safe {
        return String::from_str(input);
    }
    proof {
        reveal_strlit("\"");
        reveal_strlit("\\\\");
        reveal_strlit("\\\"");
        assert(input@.subrange(0, 0) =~= Seq::<char>::empty());
    }
    let mut out = String::from_str("\"");
    let mut k: usize = 0;
    while k < n
        invariant
            n == input@.len(),
            k <= n,
            out@ == seq!['"'] + escape(input@.subrange(0, k as int)),
        decreases n - k,
    {
        let c = input.get_char(k);
        let ghost before = out@;
        if c == '\\' {
            out.append("\\\\");
        } else if c == '"' {
            out.append("\\\"");
        } else {
            out.append(input.substring_char(k, k + 1));
        }
        proof {
            let prefix = input@.subrange(0, k + 1);
            assert(prefix.drop_last() =~= input@.subrange(0, k as int));
            assert(prefix.last() == c);
            reveal_strlit("\\\\");
            reveal_strlit("\\\"");
            assert("\\\\"@ =~= seq!['\\', '\\']);
            assert("\\\""@ =~= seq!['\\', '"']);
            assert(input@.subrange(k as int, k + 1) =~= seq![c]);
            assert(out@ =~= before + escape_char(c));
            assert(escape(prefix) == escape(prefix.drop_last()) + escape_char(prefix.last()));
            assert(out@ =~= seq!['"'] + escape(prefix));
        }
        k = k + 1;
    }
    out.append("\"");
    proof {
        assert(input@.subrange(0, n as int) =~= input@);
    }
    out
}

} // verus!
