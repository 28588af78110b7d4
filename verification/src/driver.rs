use vstd::prelude::*;

use crate::jsonio;
use crate::strutil;
use crate::AnalyseError;

verus! {

/// Hexadecimal digit as a character.
pub open spec fn hex_char(d: nat) -> char {
    if d == 0 {
        '0'
    } else if d == 1 {
        '1'
    } else if d == 2 {
        '2'
    } else if d == 3 {
        '3'
    } else if d == 4 {
        '4'
    } else if d == 5 {
        '5'
    } else if d == 6 {
        '6'
    } else if d == 7 {
        '7'
    } else if d == 8 {
        '8'
    } else if d == 9 {
        '9'
    } else if d == 10 {
        'a'
    } else if d == 11 {
        'b'
    } else if d == 12 {
        'c'
    } else if d == 13 {
        'd'
    } else if d == 14 {
        'e'
    } else {
        'f'
    }
}

/// How one character is written inside a JSON string literal: quote,
/// backslash and the named control characters get a two-character escape,
/// other control characters a `\u00..` escape, and everything else
/// stands as it is.
pub open spec fn escape_char(c: char) -> Seq<char> {
    if c == '"' {
        seq!['\\', '"']
    } else if c == '\\' {
        seq!['\\', '\\']
    } else if c == '\n' {
        seq!['\\', 'n']
    } else if c == '\r' {
        seq!['\\', 'r']
    } else if c == '\t' {
        seq!['\\', 't']
    } else if (c as u32) < 32 {
        seq!['\\', 'u', '0', '0', hex_char((c as u32 / 16) as nat), hex_char((c as u32 % 16) as nat)]
    } else {
        seq![c]
    }
}

/// The JSON string-literal encoding of a text, character by character.
pub open spec fn json_escaped(s: Seq<char>) -> Seq<char>
    decreases s.len(),
{
    if s.len() == 0 {
        Seq::<char>::empty()
    } else {
        json_escaped(s.drop_last()) + escape_char(s.last())
    }
}

fn hex_str(d: u32) -> (r: &'static str)
    requires
        d < 16,
    ensures
        r@ == seq![hex_char(d as nat)],
{
    let s = "0123456789abcdef";
    proof {
        reveal_strlit("0123456789abcdef");
    }
    let r = s.substring_char(d as usize, d as usize + 1);
    proof {
        assert(r@ =~= seq![hex_char(d as nat)]);
    }
    r
}

/// Writes `s` as the inside of a JSON string literal.
pub fn json_escape(s: &str) -> (r: String)
    ensures
        r@ == json_escaped(s@),
{
    let len = s.unicode_len();
    let mut out = String::new();
    let mut i: usize = 0;
    while i < len
        invariant
            len == s@.len(),
            0 <= i <= len,
            out@ == json_escaped(s@.subrange(0, i as int)),
        decreases len - i,
    {
        let c = s.get_char(i);
        proof {
            assert(s@.subrange(0, i + 1).drop_last() =~= s@.subrange(0, i as int));
            assert(s@.subrange(0, i + 1).last() == s@[i as int]);
        }
        if c == '"' {
            out.append("\\\"");
            proof {
                reveal_strlit("\\\"");
                assert(out@ =~= json_escaped(s@.subrange(0, i + 1)));
            }
        } else if c == '\\' {
            out.append("\\\\");
            proof {
                reveal_strlit("\\\\");
                assert(out@ =~= json_escaped(s@.subrange(0, i + 1)));
            }
        } else if c == '\n' {
            out.append("\\n");
            proof {
                reveal_strlit("\\n");
                assert(out@ =~= json_escaped(s@.subrange(0, i + 1)));
            }
        } else if c == '\r' {
            out.append("\\r");
            proof {
                reveal_strlit("\\r");
                assert(out@ =~= json_escaped(s@.subrange(0, i + 1)));
            }
        } else if c == '\t' {
            out.append("\\t");
            proof {
                reveal_strlit("\\t");
                assert(out@ =~= json_escaped(s@.subrange(0, i + 1)));
            }
        } else if (c as u32) < 32 {
            let code = c as u32;
            out.append("\\u00");
            out.append(hex_str(code / 16));
            out.append(hex_str(code % 16));
            proof {
                reveal_strlit("\\u00");
                assert(out@ =~= json_escaped(s@.subrange(0, i + 1)));
            }
        } else {
            let piece = s.substring_char(i, i + 1);
            out.append(piece);
            proof {
                assert(piece@ =~= seq![s@[i as int]]);
                assert(out@ =~= json_escaped(s@.subrange(0, i + 1)));
            }
        }
        i = i + 1;
    }
    proof {
        assert(s@.subrange(0, len as int) =~= s@);
    }
    out
}

/// A type name as it stands in the rendered inventory: in double quotes.
pub open spec fn quoted(t: Seq<char>) -> Seq<char> {
    seq!['"'] + t + seq!['"']
}

/// The quoted type names joined with `, `.
pub open spec fn render_types_inner(ts: Seq<Seq<char>>) -> Seq<char>
    decreases ts.len(),
{
    if ts.len() == 0 {
        Seq::<char>::empty()
    } else if ts.len() == 1 {
        quoted(ts[0])
    } else {
        render_types_inner(ts.drop_last()) + ", "@ + quoted(ts.last())
    }
}

/// The file-type inventory as the prompt shows it: the quoted names,
/// comma-separated, in braces.
pub open spec fn render_types(ts: Seq<Seq<char>>) -> Seq<char> {
    "{"@ + render_types_inner(ts) + "}"@
}

/// Renders the file-type inventory for the prompt.
pub fn render_file_types(ts: &Vec<String>) -> (r: String)
    ensures
        r@ == render_types(ts.deep_view()),
{
    let mut out = "{".to_owned();
    let mut i: usize = 0;
    proof {
        assert(ts.deep_view().take(0) =~= Seq::<Seq<char>>::empty());
        assert(out@ =~= "{"@ + render_types_inner(ts.deep_view().take(0)));
    }
    while i < ts.len()
        invariant
            ts.deep_view().len() == ts@.len(),
            0 <= i <= ts@.len(),
            out@ == "{"@ + render_types_inner(ts.deep_view().take(i as int)),
        decreases ts@.len() - i,
    {
        proof {
            assert(ts.deep_view().take(i + 1).drop_last() =~= ts.deep_view().take(i as int));
            assert(ts.deep_view().take(i + 1).last() == ts.deep_view()[i as int]);
            assert(ts.deep_view()[i as int] == ts@[i as int]@);
        }
        if i > 0 {
            out.append(", ");
        }
        out.append("\"");
        out.append(ts[i].as_str());
        out.append("\"");
        proof {
            reveal_strlit(", ");
            reveal_strlit("\"");
            assert(out@ =~= "{"@ + render_types_inner(ts.deep_view().take(i + 1)));
        }
        i = i + 1;
    }
    proof {
        assert(ts.deep_view().take(ts@.len() as int) =~= ts.deep_view());
    }
    out.append("}");
    proof {
        assert(out@ =~= render_types(ts.deep_view()));
    }
    out
}

/// The analysis prompt for one chunk: the reference, the chunk's 1-based
/// position and the total count, the rendered inventory, and the chunk's
/// text, in the fixed frame.
pub open spec fn prompt_of(
    reference: Seq<char>,
    part: nat,
    total: nat,
    types_rendered: Seq<char>,
    chunk: Seq<char>,
) -> Seq<char> {
    "Analyze the following truncated code from the repository at "@ + reference
        + ". This is part "@ + strutil::dec_str(part) + " of "@ + strutil::dec_str(total)
        + ". The repository contains files with extensions: "@ + types_rendered
        + ". Please provide an in-depth analysis of the code, its purpose, and if there's anything suspicious or potentially considered malware:\n\n```\n"@
        + chunk + "\n```\n"@
}

/// Builds the analysis prompt for one chunk.
pub fn build_prompt(
    reference: &str,
    part: usize,
    total: usize,
    types_rendered: &str,
    chunk: &str,
) -> (r: String)
    ensures
        r@ == prompt_of(reference@, part as nat, total as nat, types_rendered@, chunk@),
{
    let mut out = "Analyze the following truncated code from the repository at ".to_owned();
    out.append(reference);
    out.append(". This is part ");
    let part_str = strutil::usize_to_string(part);
    out.append(part_str.as_str());
    out.append(" of ");
    let total_str = strutil::usize_to_string(total);
    out.append(total_str.as_str());
    out.append(". The repository contains files with extensions: ");
    out.append(types_rendered);
    out.append(
        ". Please provide an in-depth analysis of the code, its purpose, and if there's anything suspicious or potentially considered malware:\n\n```\n",
    );
    out.append(chunk);
    out.append("\n```\n");
    proof {
        assert(out@ =~= prompt_of(reference@, part as nat, total as nat, types_rendered@, chunk@));
    }
    out
}

/// The completion request carrying a prompt: the fixed model, the fixed
/// system message, the prompt as the user message, and the fixed
/// sampling parameters.
pub open spec fn request_body_of(prompt: Seq<char>) -> Seq<char> {
    "{\"model\":\"gpt-3.5-turbo\",\"messages\":[{\"role\":\"system\",\"content\":\"You are an AI language model that can analyze codebases and provide insights.\"},{\"role\":\"user\",\"content\":\""@
        + json_escaped(prompt) + "\"}],\"temperature\":0.5,\"max_tokens\":100}"@
}

/// Builds the completion request body carrying `prompt`.
pub fn build_request_body(prompt: &str) -> (r: String)
    ensures
        r@ == request_body_of(prompt@),
{
    let mut out =
        "{\"model\":\"gpt-3.5-turbo\",\"messages\":[{\"role\":\"system\",\"content\":\"You are an AI language model that can analyze codebases and provide insights.\"},{\"role\":\"user\",\"content\":\"".to_owned();
    let escaped = json_escape(prompt);
    out.append(escaped.as_str());
    out.append("\"}],\"temperature\":0.5,\"max_tokens\":100}");
    proof {
        assert(out@ =~= request_body_of(prompt@));
    }
    out
}

/// The whitespace the result text is trimmed of: the characters with
/// Unicode's `White_Space` property, the same set `str::trim` removes.
pub open spec fn is_ws(c: char) -> bool {
    let u = c as u32;
    (9 <= u && u <= 13) || u == 32 || u == 0x85 || u == 0xa0 || u == 0x1680 || (0x2000 <= u && u
        <= 0x200a) || u == 0x2028 || u == 0x2029 || u == 0x202f || u == 0x205f || u == 0x3000
}

/// `s` without its leading whitespace.
pub open spec fn trim_front(s: Seq<char>) -> Seq<char>
    decreases s.len(),
{
    if s.len() > 0 && is_ws(s.first()) {
        trim_front(s.drop_first())
    } else {
        s
    }
}

/// `s` without its trailing whitespace.
pub open spec fn trim_back(s: Seq<char>) -> Seq<char>
    decreases s.len(),
{
    if s.len() > 0 && is_ws(s.last()) {
        trim_back(s.drop_last())
    } else {
        s
    }
}

/// `s` without leading and trailing whitespace.
pub open spec fn trim_of(s: Seq<char>) -> Seq<char> {
    trim_back(trim_front(s))
}

fn is_ws_char(c: char) -> (r: bool)
    ensures
        r == is_ws(c),
{
    let u = c as u32;
    (9 <= u && u <= 13) || u == 32 || u == 0x85 || u == 0xa0 || u == 0x1680 || (0x2000 <= u && u
        <= 0x200a) || u == 0x2028 || u == 0x2029 || u == 0x202f || u == 0x205f || u == 0x3000
}

/// Trims leading and trailing whitespace.
pub fn trim_str(s: &str) -> (r: String)
    ensures
        r@ == trim_of(s@),
{
    let len = s.unicode_len();
    let mut start: usize = 0;
    proof {
        assert(s@.skip(0) =~= s@);
    }
    while start < len && is_ws_char(s.get_char(start))
        invariant
            len == s@.len(),
            0 <= start <= len,
            trim_front(s@) == trim_front(s@.skip(start as int)),
        decreases len - start,
    {
        proof {
            assert(s@.skip(start as int).first() == s@[start as int]);
            assert(s@.skip(start as int).drop_first() =~= s@.skip(start + 1));
        }
        start = start + 1;
    }
    proof {
        if start < len {
            assert(trim_front(s@.skip(start as int)) == s@.skip(start as int));
        } else {
            assert(s@.skip(start as int).len() == 0);
        }
        assert(trim_front(s@) == s@.skip(start as int));
    }
    let mut end: usize = len;
    proof {
        assert(s@.subrange(start as int, end as int) =~= s@.skip(start as int));
    }
    while end > start && is_ws_char(s.get_char(end - 1))
        invariant
            len == s@.len(),
            0 <= start <= end <= len,
            trim_back(s@.skip(start as int)) == trim_back(s@.subrange(start as int, end as int)),
        decreases end,
    {
        proof {
            assert(s@.subrange(start as int, end as int).last() == s@[end - 1]);
            assert(s@.subrange(start as int, end as int).drop_last() =~= s@.subrange(
                start as int,
                end - 1,
            ));
        }
        end = end - 1;
    }
    proof {
        assert(trim_back(s@.subrange(start as int, end as int)) == s@.subrange(
            start as int,
            end as int,
        ));
    }
    s.substring_char(start, end).to_owned()
}

/// Which shape of completion response the configured endpoint returns.
#[derive(Clone, Copy, PartialEq, Eq, Structural)]
pub enum ResponseStyle {
    /// `choices[0].message.content` carries the text.
    Chat,
    /// `choices[0].text` carries the text.
    Legacy,
}

/// The text a successful completion response yields: the configured
/// field's string, or empty when the field is absent, trimmed.
pub open spec fn completion_text_of(body: Seq<char>, style: ResponseStyle) -> Seq<char> {
    let f = jsonio::completion_fields_of(body);
    let raw = match style {
        ResponseStyle::Chat => f.3,
        ResponseStyle::Legacy => f.4,
    };
    trim_of(
        match raw {
            Some(t) => t,
            None => Seq::<char>::empty(),
        },
    )
}

/// Reads one completion response: a body that is not JSON fails with the
/// body as the message; a body with an `error` member fails with its
/// message (or the fixed fallback); otherwise the configured field's
/// text, trimmed, with an absent field giving the empty text.
pub fn parse_completion(body: &str, style: ResponseStyle) -> (r: Result<String, AnalyseError>)
    ensures
        (r is Ok) == (jsonio::completion_fields_of(body@).0 && !jsonio::completion_fields_of(
            body@,
        ).1),
        r matches Ok(t) ==> t@ == completion_text_of(body@, style),
        !jsonio::completion_fields_of(body@).0 ==> (r matches Err(e) && e
            matches AnalyseError::RemoteAnalysisFailed { message } && message@ == body@),
        jsonio::completion_fields_of(body@).0 && jsonio::completion_fields_of(body@).1 ==> (
        r matches Err(e) && e matches AnalyseError::RemoteAnalysisFailed { message } && message@
            == (match jsonio::completion_fields_of(body@).2 {
            Some(m) => m,
            None => "Unknown error"@,
        })),
{
    let fields = match jsonio::read_completion_fields(body) {
        Ok(f) => f,
        Err(_) => {
            return Err(AnalyseError::RemoteAnalysisFailed { message: body.to_owned() });
        },
    };
    if fields.has_error {
        let message = match fields.error_message {
            Some(m) => m,
            None => "Unknown error".to_owned(),
        };
        return Err(AnalyseError::RemoteAnalysisFailed { message });
    }
    let raw = match style {
        ResponseStyle::Chat => fields.chat_content,
        ResponseStyle::Legacy => fields.legacy_text,
    };
    let raw = match raw {
        Some(t) => t,
        None => String::new(),
    };
    Ok(trim_str(raw.as_str()))
}

/// One chunk's analysis, in chunk order.
pub struct AnalysisResult {
    pub chunk_index: usize,
    pub text: String,
}

/// The run's terminal artifact: the inventory and the ordered results.
pub struct Report {
    pub file_types: Vec<String>,
    pub results: Vec<AnalysisResult>,
}

/// Assembles the report; pure assembly, order preserved verbatim.
pub fn aggregate(file_types: Vec<String>, results: Vec<AnalysisResult>) -> (r: Report)
    ensures
        r.file_types == file_types,
        r.results == results,
{
    Report { file_types, results }
}

/// The analysis of one repository's chunks, driven one completion call
/// at a time: the caller sends `next_request_body` to the endpoint and
/// hands the response body to `record_response`, in order, until `done`.
pub struct AnalysisSession {
    pub reference: String,
    pub style: ResponseStyle,
    pub file_types: Vec<String>,
    pub types_rendered: String,
    pub chunks: Vec<String>,
    pub results: Vec<AnalysisResult>,
}

impl AnalysisSession {
    /// The session's invariant: results cover a prefix of the chunks, in
    /// chunk order, and the rendered inventory matches the inventory.
    pub open spec fn wf(&self) -> bool {
        &&& self.results@.len() <= self.chunks@.len()
        &&& self.types_rendered@ == render_types(self.file_types.deep_view())
        &&& forall|i: int|
            0 <= i < self.results@.len() ==> (#[trigger] self.results@[i]).chunk_index == i
    }

    /// Starts a session with no chunk analyzed yet.
    pub fn new(
        reference: String,
        file_types: Vec<String>,
        chunks: Vec<String>,
        style: ResponseStyle,
    ) -> (s: Self)
        ensures
            s.wf(),
            s.reference == reference,
            s.style == style,
            s.file_types == file_types,
            s.chunks == chunks,
            s.results@.len() == 0,
    {
        let types_rendered = render_file_types(&file_types);
        AnalysisSession {
            reference,
            style,
            file_types,
            types_rendered,
            chunks,
            results: Vec::new(),
        }
    }

    /// Whether every chunk has its result.
    pub fn done(&self) -> (r: bool)
        ensures
            r == (self.results@.len() == self.chunks@.len()),
    {
        self.results.len() == self.chunks.len()
    }

    /// The prompt for the next chunk, embedding its 1-based position,
    /// the total count, the rendered inventory and the chunk's text.
    pub fn next_prompt(&self) -> (r: String)
        requires
            self.wf(),
            self.results@.len() < self.chunks@.len(),
        ensures
            r@ == prompt_of(
                self.reference@,
                self.results@.len() + 1,
                self.chunks@.len() as nat,
                render_types(self.file_types.deep_view()),
                self.chunks@[self.results@.len() as int]@,
            ),
    {
        let idx = self.results.len();
        let total = self.chunks.len();
        build_prompt(
            self.reference.as_str(),
            idx + 1,
            total,
            self.types_rendered.as_str(),
            self.chunks[idx].as_str(),
        )
    }

    /// The completion request for the next chunk.
    pub fn next_request_body(&self) -> (r: String)
        requires
            self.wf(),
            self.results@.len() < self.chunks@.len(),
        ensures
            r@ == request_body_of(
                prompt_of(
                    self.reference@,
                    self.results@.len() + 1,
                    self.chunks@.len() as nat,
                    render_types(self.file_types.deep_view()),
                    self.chunks@[self.results@.len() as int]@,
                ),
            ),
    {
        let prompt = self.next_prompt();
        build_request_body(prompt.as_str())
    }

    /// Records the endpoint's response for the next chunk: a readable
    /// success appends its text in order; a failure leaves the session
    /// as it was and reports the error, which ends the whole run.
    pub fn record_response(&mut self, body: &str) -> (r: Result<(), AnalyseError>)
        requires
            old(self).wf(),
            old(self).results@.len() < old(self).chunks@.len(),
        ensures
            final(self).wf(),
            final(self).reference == old(self).reference,
            final(self).style == old(self).style,
            final(self).file_types == old(self).file_types,
            final(self).types_rendered == old(self).types_rendered,
            final(self).chunks == old(self).chunks,
            (r is Ok) == (jsonio::completion_fields_of(body@).0 && !jsonio::completion_fields_of(
                body@,
            ).1),
            r is Ok ==> final(self).results@.len() == old(self).results@.len() + 1,
            r is Ok ==> forall|i: int|
                0 <= i < old(self).results@.len() ==> final(self).results@[i] == old(
                    self,
                ).results@[i],
            r is Ok ==> final(self).results@.last().chunk_index == old(self).results@.len(),
            r is Ok ==> final(self).results@.last().text@ == completion_text_of(
                body@,
                old(self).style,
            ),
            r matches Err(_) ==> final(self).results == old(self).results,
            !jsonio::completion_fields_of(body@).0 ==> (r matches Err(e) && e
                matches AnalyseError::RemoteAnalysisFailed { message } && message@ == body@),
            jsonio::completion_fields_of(body@).0 && jsonio::completion_fields_of(body@).1 ==> (
            r matches Err(e) && e matches AnalyseError::RemoteAnalysisFailed { message }
                && message@ == (match jsonio::completion_fields_of(body@).2 {
                Some(m) => m,
                None => "Unknown error"@,
            })),
    {
        match parse_completion(body, self.style) {
            Ok(text) => {
                let chunk_index = self.results.len();
                self.results.push(AnalysisResult { chunk_index, text });
                Ok(())
            },
            Err(e) => Err(e),
        }
    }

    /// Closes the session into the report once every chunk has its
    /// result.
    pub fn into_report(self) -> (r: Report)
        ensures
            r.file_types == self.file_types,
            r.results == self.results,
    {
        aggregate(self.file_types, self.results)
    }
}

} // verus!
