//! The lines that make the handshake visible in the terminal.

use vstd::prelude::*;

use crate::store::{Binding, BindingView};
use crate::text;

verus! {

/// The lines to print for one request, in order.
pub struct Log {
    pub lines: Vec<String>,
}

impl View for Log {
    type V = Seq<Seq<char>>;

    open spec fn view(&self) -> Seq<Seq<char>> {
        text::texts(self.lines@)
    }
}

impl Log {
    /// No lines.
    pub fn new() -> (r: Log)
        ensures
            r@ == Seq::<Seq<char>>::empty(),
    {
        let r = Log { lines: Vec::new() };
        assert(r@ =~= Seq::<Seq<char>>::empty());
        r
    }

    /// One more line.
    pub fn line(&mut self, line: String)
        ensures
            final(self)@ == old(self)@.push(line@),
    {
        proof {
            text::lemma_texts_push(self.lines@, line);
        }
        self.lines.push(line);
    }
}

/// The banner over the lines of flow number `n`.
pub open spec fn banner(n: u8, title: Seq<char>) -> Seq<char> {
    "\n════════ FLOW "@ + text::decimal_text(n as nat) + ": "@ + title + " ════════"@
}

/// The lines that show what is kept for a session.
pub open spec fn binding_lines(label: Seq<char>, session_id: Seq<char>, b: BindingView) -> Seq<
    Seq<char>,
> {
    seq![
        "  STORE ["@ + label + "]  key(session_identifier)="@ + session_id + " -> Binding {"@,
        "           user_id          = "@ + b.user_id,
        "           device_public_key= <EC P-256 x/y>   (verify every refresh against this)"@,
        "           algorithm        = "@ + b.algorithm,
        "           cookie_value     = "@ + b.cookie_value + "   (rotates every refresh)"@,
        "           challenge        = "@ + b.challenge + "   (next refresh must present as jti)"@,
        "           created_at       = "@ + text::decimal_text(b.created_at as nat)
            + "   expires_at = "@ + text::decimal_text(b.expires_at as nat),
        "         }"@,
    ]
}

/// Starts the lines of flow number `n` with a banner.
pub fn flow_header(log: &mut Log, n: u8, title: &str)
    ensures
        final(log)@ == old(log)@.push(banner(n, title@)),
{
    let number = text::decimal(n as u64);
    log.line(text::cat5("\n════════ FLOW ", number.as_str(), ": ", title, " ════════"));
}

/// Shows exactly what is kept for a session.
pub fn print_binding(log: &mut Log, label: &str, session_id: &str, b: &Binding)
    ensures
        final(log)@ == old(log)@ + binding_lines(label@, session_id@, b@),
{
    log.line(
        text::cat5(
            "  STORE [",
            label,
            "]  key(session_identifier)=",
            session_id,
            " -> Binding {",
        ),
    );
    log.line(text::cat2("           user_id          = ", b.user_id.as_str()));
    log.line(
        "           device_public_key= <EC P-256 x/y>   (verify every refresh against this)".to_owned(),
    );
    log.line(text::cat2("           algorithm        = ", b.algorithm.as_str()));
    log.line(
        text::cat3(
            "           cookie_value     = ",
            b.cookie_value.as_str(),
            "   (rotates every refresh)",
        ),
    );
    log.line(
        text::cat3(
            "           challenge        = ",
            b.challenge.as_str(),
            "   (next refresh must present as jti)",
        ),
    );
    let created_at = text::decimal(b.created_at);
    let expires_at = text::decimal(b.expires_at);
    log.line(
        text::cat4(
            "           created_at       = ",
            created_at.as_str(),
            "   expires_at = ",
            expires_at.as_str(),
        ),
    );
    log.line("         }".to_owned());
    assert(log@ =~= old(log)@ + binding_lines(label@, session_id@, b@));
}

} // verus!
