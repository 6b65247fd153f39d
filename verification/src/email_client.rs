use vstd::prelude::*;
use vstd::string::StringExecFns;
use vstd::string::StringSliceAdditionalSpecFns;
use vstd::utf8::encode_utf8;
use crate::domain::SubscriberEmail;

verus! {

/// Total timeout, in seconds, of one outbound email request.
pub const HTTP_TIMEOUT_SECS: u64 = 10;

/// The bytes serialising one byte of a JSON string value: quote and backslash
/// get a two-byte escape, the control bytes get their short escape or the
/// four-digit `\u00..` form, and every other byte stands as it is.
pub open spec fn escape_byte(b: u8) -> Seq<u8> {
    if b == 0x22 {
        seq![0x5cu8, 0x22u8]
    } else if b == 0x5c {
        seq![0x5cu8, 0x5cu8]
    } else if b == 0x08 {
        seq![0x5cu8, 0x62u8]
    } else if b == 0x09 {
        seq![0x5cu8, 0x74u8]
    } else if b == 0x0a {
        seq![0x5cu8, 0x6eu8]
    } else if b == 0x0c {
        seq![0x5cu8, 0x66u8]
    } else if b == 0x0d {
        seq![0x5cu8, 0x72u8]
    } else if b < 0x20 {
        seq![0x5cu8, 0x75u8, 0x30u8, 0x30u8, hex_lower(b / 16), hex_lower(b % 16)]
    } else {
        seq![b]
    }
}

/// The lower-case hexadecimal digit for a value below 16.
pub open spec fn hex_lower(n: u8) -> u8 {
    if n < 10 {
        (0x30 + n) as u8
    } else {
        (0x57 + n) as u8
    }
}

/// The JSON escaping of a whole string value, byte by byte.
pub open spec fn json_escaped(s: Seq<u8>) -> Seq<u8>
    decreases s.len(),
{
    if s.len() == 0 {
        Seq::empty()
    } else {
        json_escaped(s.drop_last()) + escape_byte(s.last())
    }
}

proof fn lemma_json_escaped_step(s: Seq<u8>, i: int)
    requires
        0 <= i < s.len(),
    ensures
        json_escaped(s.take(i + 1)) == json_escaped(s.take(i)) + escape_byte(s[i]),
{
    assert(s.take(i + 1).drop_last() =~= s.take(i));
    assert(s.take(i + 1).last() == s[i]);
}

/// Appends the bytes of `s` to `out`.
fn push_literal(out: &mut Vec<u8>, s: &str)
    ensures
        final(out)@ == old(out)@ + s.spec_bytes(),
{
    out.extend_from_slice(s.as_bytes());
}

/// Appends the JSON escaping of `b` to `out`.
fn push_escaped(out: &mut Vec<u8>, b: &[u8])
    ensures
        final(out)@ == old(out)@ + json_escaped(b@),
{
    let n = b.len();
    let mut i: usize = 0;
    while i < n
        invariant
            n == b@.len(),
            i <= n,
            out@ == old(out)@ + json_escaped(b@.take(i as int)),
        decreases n - i,
    {
        let c = *vstd::slice::slice_index_get(b, i);
        if c == 0x22 {
            out.push(0x5c);
            out.push(0x22);
        } else if c == 0x5c {
            out.push(0x5c);
            out.push(0x5c);
        } else if c == 0x08 {
            out.push(0x5c);
            out.push(0x62);
        } else if c == 0x09 {
            out.push(0x5c);
            out.push(0x74);
        } else if c == 0x0a {
            out.push(0x5c);
            out.push(0x6e);
        } else if c == 0x0c {
            out.push(0x5c);
            out.push(0x66);
        } else if c == 0x0d {
            out.push(0x5c);
            out.push(0x72);
        } else if c < 0x20 {
            out.push(0x5c);
            out.push(0x75);
            out.push(0x30);
            out.push(0x30);
            let hi = c / 16;
            let lo = c % 16;
            out.push(if hi < 10 {
                0x30 + hi
            } else {
                0x57 + hi
            });
            out.push(if lo < 10 {
                0x30 + lo
            } else {
                0x57 + lo
            });
        } else {
            out.push(c);
        }
        proof {
            lemma_json_escaped_step(b@, i as int);
        }
        i += 1;
    }
    proof {
        assert(b@.take(n as int) =~= b@);
    }
}

/// The exact wire body of one outbound email request: a JSON object with the
/// five PascalCase keys `From`, `To`, `Subject`, `HtmlBody` and `TextBody`,
/// in that order, each value a JSON-escaped string.
pub open spec fn email_request_body_spec(
    from: Seq<u8>,
    to: Seq<u8>,
    subject: Seq<u8>,
    html: Seq<u8>,
    text: Seq<u8>,
) -> Seq<u8> {
    encode_utf8("{\"From\":\""@) + json_escaped(from) + encode_utf8("\",\"To\":\""@)
        + json_escaped(to) + encode_utf8("\",\"Subject\":\""@) + json_escaped(subject)
        + encode_utf8("\",\"HtmlBody\":\""@) + json_escaped(html) + encode_utf8(
        "\",\"TextBody\":\""@,
    ) + json_escaped(text) + encode_utf8("\"}"@)
}

/// True when an HTTP status code reports success: the whole 2xx class.
pub open spec fn spec_success_status(status: u16) -> bool {
    200 <= status < 300
}

/// Whether a response status counts as a successful delivery; anything
/// outside the 2xx class is surfaced as a transport error.
pub fn is_success_status(status: u16) -> (r: bool)
    ensures
        r == spec_success_status(status),
{
    200 <= status && status < 300
}

/// The outbound email sender's immutable state: where requests go and whom
/// they are sent as. The HTTP connection itself lives outside this type.
#[derive(Clone, Debug)]
pub struct EmailClient {
    base_url: String,
    sender: SubscriberEmail,
}

impl EmailClient {
    /// The configured endpoint base.
    pub closed spec fn base_url_view(&self) -> Seq<char> {
        self.base_url@
    }

    /// The configured sender address.
    pub closed spec fn sender_view(&self) -> Seq<char> {
        self.sender@
    }

    pub fn new(base_url: String, sender: SubscriberEmail) -> (r: EmailClient)
        ensures
            r.base_url_view() == base_url@,
            r.sender_view() == sender@,
    {
        EmailClient { base_url, sender }
    }

    /// The target URL of every send: the base URL followed by `/email`.
    pub fn request_url(&self) -> (r: String)
        ensures
            r@ == self.base_url_view() + "/email"@,
    {
        self.base_url.clone().concat("/email")
    }

    /// Frames the request body for one email: `From` is the configured
    /// sender, `To` the recipient, and the three content fields are taken
    /// verbatim.
    pub fn request_body(
        &self,
        recipient: &SubscriberEmail,
        subject: &str,
        html_content: &str,
        text_content: &str,
    ) -> (r: Vec<u8>)
        ensures
            r@ == email_request_body_spec(
                encode_utf8(self.sender_view()),
                encode_utf8(recipient@),
                subject.spec_bytes(),
                html_content.spec_bytes(),
                text_content.spec_bytes(),
            ),
    {
        let mut out: Vec<u8> = Vec::new();
        push_literal(&mut out, "{\"From\":\"");
        push_escaped(&mut out, self.sender.as_ref().as_bytes());
        push_literal(&mut out, "\",\"To\":\"");
        push_escaped(&mut out, recipient.as_ref().as_bytes());
        push_literal(&mut out, "\",\"Subject\":\"");
        push_escaped(&mut out, subject.as_bytes());
        push_literal(&mut out, "\",\"HtmlBody\":\"");
        push_escaped(&mut out, html_content.as_bytes());
        push_literal(&mut out, "\",\"TextBody\":\"");
        push_escaped(&mut out, text_content.as_bytes());
        push_literal(&mut out, "\"}");
        out
    }
}

} // verus!
