//! Errors as an ordered chain of frames, each a kind with optional context.

use vstd::prelude::*;
use crate::text::{decimal, push_char, push_decimal};

verus! {

/// What went wrong, one kind for each failure the tool tells apart.
#[derive(Debug, Clone, Copy, PartialEq, Eq, Structural)]
pub enum Oops {
    OpenAIKeyMissing,
    OpenAIChatResponse,
    OpenAIChatDeserialization,
    OpenAIBadFinishReason,
    OpenAIEmptyChoices,
    OpenAIContentAndRefusal,
    OpenAIEmptyContent,
    StdinReadError,
    XdgConfigError,
    DbError,
    DbNotFound,
    CompletionError,
    ChatError,
    RecapError,
    AnnotateError,
    WindowRangeError,
    EngineRefusal,
    EngineProtocolError,
    DecodeError,
    FileReadError,
    FileWriteError,
    UreqTransportError,
    UreqHttpError,
    UreqMetaError,
    CommandError,
    StringError,
    OsError,
    Placeholder,
}

/// The explanation of a kind that has only one, if it has one.
pub open spec fn explanation(oops: Oops) -> Option<Seq<char>> {
    match oops {
        Oops::OpenAIEmptyChoices => Some("OpenAI did not provide any response choices."@),
        Oops::OpenAIKeyMissing => Some("set $OPENAI_API_KEY in your environment"@),
        Oops::OpenAIContentAndRefusal => Some("OpenAI message contained `content` and `refusal`. This should never happen."@),
        Oops::OpenAIEmptyContent => Some("OpenAI messages contains neither `content` nor `refusal`. This should never happen."@),
        Oops::UreqTransportError => Some("A HTTP transport error occurred. Double-check your internet connection. Enable debug logging for more details."@),
        Oops::WindowRangeError => Some("The end of the line window precedes its start."@),
        Oops::EngineRefusal => Some("The completion engine declined to answer."@),
        Oops::EngineProtocolError => Some("The completion engine sent a malformed or self-contradictory response."@),
        Oops::DecodeError => Some("The response body does not have the shape of an annotation list."@),
        _ => None,
    }
}

/// The name of a kind.
pub open spec fn kind_name(oops: Oops) -> Seq<char> {
    match oops {
        Oops::OpenAIKeyMissing => "OpenAIKeyMissing"@,
        Oops::OpenAIChatResponse => "OpenAIChatResponse"@,
        Oops::OpenAIChatDeserialization => "OpenAIChatDeserialization"@,
        Oops::OpenAIBadFinishReason => "OpenAIBadFinishReason"@,
        Oops::OpenAIEmptyChoices => "OpenAIEmptyChoices"@,
        Oops::OpenAIContentAndRefusal => "OpenAIContentAndRefusal"@,
        Oops::OpenAIEmptyContent => "OpenAIEmptyContent"@,
        Oops::StdinReadError => "StdinReadError"@,
        Oops::XdgConfigError => "XdgConfigError"@,
        Oops::DbError => "DbError"@,
        Oops::DbNotFound => "DbNotFound"@,
        Oops::CompletionError => "CompletionError"@,
        Oops::ChatError => "ChatError"@,
        Oops::RecapError => "RecapError"@,
        Oops::AnnotateError => "AnnotateError"@,
        Oops::WindowRangeError => "WindowRangeError"@,
        Oops::EngineRefusal => "EngineRefusal"@,
        Oops::EngineProtocolError => "EngineProtocolError"@,
        Oops::DecodeError => "DecodeError"@,
        Oops::FileReadError => "FileReadError"@,
        Oops::FileWriteError => "FileWriteError"@,
        Oops::UreqTransportError => "UreqTransportError"@,
        Oops::UreqHttpError => "UreqHttpError"@,
        Oops::UreqMetaError => "UreqMetaError"@,
        Oops::CommandError => "CommandError"@,
        Oops::StringError => "StringError"@,
        Oops::OsError => "OsError"@,
        Oops::Placeholder => "Placeholder"@,
    }
}

impl Oops {
    /// In some cases there is only one possible explanation for a kind of
    /// error; those explanations are kept here instead of as context.
    pub fn explain(&self) -> (r: Option<&'static str>)
        ensures
            match r {
                Some(s) => explanation(*self) == Some(s@),
                None => explanation(*self) is None,
            },
    {
        match self {
            Self::OpenAIEmptyChoices => Some("OpenAI did not provide any response choices."),
            Self::OpenAIKeyMissing => Some("set $OPENAI_API_KEY in your environment"),
            Self::OpenAIContentAndRefusal => Some("OpenAI message contained `content` and `refusal`. This should never happen."),
            Self::OpenAIEmptyContent => Some("OpenAI messages contains neither `content` nor `refusal`. This should never happen."),
            Self::UreqTransportError => Some("A HTTP transport error occurred. Double-check your internet connection. Enable debug logging for more details."),
            Self::WindowRangeError => Some("The end of the line window precedes its start."),
            Self::EngineRefusal => Some("The completion engine declined to answer."),
            Self::EngineProtocolError => Some("The completion engine sent a malformed or self-contradictory response."),
            Self::DecodeError => Some("The response body does not have the shape of an annotation list."),
            _ => None,
        }
    }

    /// The name of this kind.
    pub fn name(&self) -> (r: &'static str)
        ensures
            r@ == kind_name(*self),
    {
        match self {
            Self::OpenAIKeyMissing => "OpenAIKeyMissing",
            Self::OpenAIChatResponse => "OpenAIChatResponse",
            Self::OpenAIChatDeserialization => "OpenAIChatDeserialization",
            Self::OpenAIBadFinishReason => "OpenAIBadFinishReason",
            Self::OpenAIEmptyChoices => "OpenAIEmptyChoices",
            Self::OpenAIContentAndRefusal => "OpenAIContentAndRefusal",
            Self::OpenAIEmptyContent => "OpenAIEmptyContent",
            Self::StdinReadError => "StdinReadError",
            Self::XdgConfigError => "XdgConfigError",
            Self::DbError => "DbError",
            Self::DbNotFound => "DbNotFound",
            Self::CompletionError => "CompletionError",
            Self::ChatError => "ChatError",
            Self::RecapError => "RecapError",
            Self::AnnotateError => "AnnotateError",
            Self::WindowRangeError => "WindowRangeError",
            Self::EngineRefusal => "EngineRefusal",
            Self::EngineProtocolError => "EngineProtocolError",
            Self::DecodeError => "DecodeError",
            Self::FileReadError => "FileReadError",
            Self::FileWriteError => "FileWriteError",
            Self::UreqTransportError => "UreqTransportError",
            Self::UreqHttpError => "UreqHttpError",
            Self::UreqMetaError => "UreqMetaError",
            Self::CommandError => "CommandError",
            Self::StringError => "StringError",
            Self::OsError => "OsError",
            Self::Placeholder => "Placeholder",
        }
    }
}

/// One frame of an error: its kind and, optionally, what it was about.
pub struct Oopsie {
    pub variant: Oops,
    pub ctx: Option<String>,
}

/// The view of one frame.
pub open spec fn frame_view(o: Oopsie) -> (Oops, Option<Seq<char>>) {
    (
        o.variant,
        match o.ctx {
            Some(c) => Some(c@),
            None => None,
        },
    )
}

/// A chain of unfortunate events, from first (innermost) to last (outermost).
pub struct Error {
    oopsies: Vec<Oopsie>,
}

impl View for Error {
    type V = Seq<(Oops, Option<Seq<char>>)>;

    closed spec fn view(&self) -> Self::V {
        self.oopsies@.map_values(|o: Oopsie| frame_view(o))
    }
}

impl Default for Error {
    fn default() -> (r: Self)
        ensures
            r@ == Seq::<(Oops, Option<Seq<char>>)>::empty(),
    {
        Error::new()
    }
}

/// The text that a frame is shown with: its context, else the kind's
/// explanation, else a note that no details are known.
pub open spec fn frame_text(f: (Oops, Option<Seq<char>>)) -> Seq<char> {
    match f.1 {
        Some(c) => c,
        None => match explanation(f.0) {
            Some(e) => e,
            None => "details not available"@,
        },
    }
}

/// One rendered frame, indented two spaces per level of depth.
pub open spec fn frame_line(depth: nat, f: (Oops, Option<Seq<char>>)) -> Seq<char> {
    Seq::new(2 * (depth + 1), |i: int| ' ') + kind_name(f.0) + " :: "@ + frame_text(f) + seq!['\n']
}

/// The lines for the `k` outermost frames, outermost first.
pub open spec fn rendered_frames(frames: Seq<(Oops, Option<Seq<char>>)>, k: nat) -> Seq<char>
    decreases k,
{
    if k == 0 {
        Seq::empty()
    } else {
        rendered_frames(frames, (k - 1) as nat) + frame_line((k - 1) as nat, frames[frames.len() - k])
    }
}

/// The report of an error: a heading, then one line for each frame,
/// outermost context first.
pub open spec fn rendered_error(frames: Seq<(Oops, Option<Seq<char>>)>) -> Seq<char> {
    "Oops! One or more errors occurred;\n"@ + rendered_frames(frames, frames.len())
}

/// How an HTTP request failed: the transport broke, or the server answered
/// with an unsuccessful status, whose body may have failed to be read.
pub enum HttpFailure {
    Transport,
    Status { code: u16, body_error: Option<String> },
}

/// The context given to an unsuccessful HTTP status.
pub open spec fn status_context(code: u16) -> Seq<char> {
    "Received unsuccessful HTTP response "@ + decimal(code as nat) + ". Enable debug logging for more details."@
}

/// The context given to a failure to read a response body.
pub open spec fn body_context(e: Seq<char>) -> Seq<char> {
    "io error while reading the response body while handling a ureq response error: "@ + e
}

impl Error {
    /// Adds the frames for a failed HTTP request: a transport failure; or a
    /// failure to read the body, if there was one, then the unsuccessful
    /// status.
    pub fn wrap_ureq(self, failure: HttpFailure) -> (r: Error)
        ensures
            failure is Transport ==> r@ == self@.push((Oops::UreqTransportError, None)),
            failure matches HttpFailure::Status { code, body_error: None } ==> r@ == self@.push(
                (Oops::UreqHttpError, Some(status_context(code))),
            ),
            failure matches HttpFailure::Status { code, body_error: Some(e) } ==> r@ == self@.push(
                (Oops::UreqMetaError, Some(body_context(e@))),
            ).push((Oops::UreqHttpError, Some(status_context(code)))),
    {
        match failure {
            HttpFailure::Transport => self.wrap(Oops::UreqTransportError),
            HttpFailure::Status { code, body_error } => {
                let s = match body_error {
                    Some(e) => {
                        let mut ctx = "io error while reading the response body while handling a ureq response error: ".to_owned();
                        ctx.append(e.as_str());
                        self.wrap(Oops::UreqMetaError).because(ctx)
                    },
                    None => self,
                };
                let mut ctx = "Received unsuccessful HTTP response ".to_owned();
                push_decimal(&mut ctx, code as usize);
                ctx.append(". Enable debug logging for more details.");
                s.wrap(Oops::UreqHttpError).because(ctx)
            },
        }
    }

    /// An error with no frames yet.
    pub fn new() -> (r: Self)
        ensures
            r@ == Seq::<(Oops, Option<Seq<char>>)>::empty(),
    {
        let r = Error { oopsies: Vec::new() };
        proof {
            assert(r@ =~= Seq::<(Oops, Option<Seq<char>>)>::empty());
        }
        r
    }

    /// Appends a kind of error to the chain.
    pub fn wrap(self, oops: Oops) -> (r: Self)
        ensures
            r@ == self@.push((oops, None)),
    {
        let mut s = self;
        s.oopsies.push(Oopsie { variant: oops, ctx: None });
        proof {
            assert(s@ =~= self@.push((oops, None)));
        }
        s
    }

    /// Describes the most recent frame of the chain; an empty chain stays as
    /// it is.
    pub fn because(self, ctx: String) -> (r: Self)
        ensures
            self@.len() == 0 ==> r@ == self@,
            self@.len() > 0 ==> r@ == self@.update(self@.len() - 1, (self@.last().0, Some(ctx@))),
    {
        let mut s = self;
        let n = s.oopsies.len();
        if n > 0 {
            let variant = s.oopsies[n - 1].variant;
            s.oopsies.set(n - 1, Oopsie { variant, ctx: Some(ctx) });
            proof {
                assert(s@ =~= self@.update(self@.len() - 1, (self@.last().0, Some(ctx@))));
            }
        }
        s
    }

    /// The outermost kind, if the chain has any frame.
    pub fn kind(&self) -> (r: Option<Oops>)
        ensures
            self@.len() == 0 ==> r is None,
            self@.len() > 0 ==> r == Some(self@.last().0),
    {
        let n = self.oopsies.len();
        if n == 0 {
            None
        } else {
            Some(self.oopsies[n - 1].variant)
        }
    }

    /// Whether the chain holds no frame.
    pub fn is_empty(&self) -> (r: bool)
        ensures
            r == (self@.len() == 0),
    {
        self.oopsies.len() == 0
    }

    /// The report of this error; see [`rendered_error`].
    pub fn render(&self) -> (r: String)
        ensures
            r@ == rendered_error(self@),
    {
        let mut out = String::new();
        out.append("Oops! One or more errors occurred;\n");
        let n = self.oopsies.len();
        let mut k: usize = 0;
        while k < n
            invariant
                n == self@.len(),
                k <= n,
                out@ == "Oops! One or more errors occurred;\n"@ + rendered_frames(self@, k as nat),
            decreases n - k,
        {
            let f = &self.oopsies[n - 1 - k];
            let ghost fv = self@[n - 1 - k];
            assert(frame_view(*f) == fv);
            let ghost before = out@;
            let mut j: usize = 0;
            while j <= k
                invariant
                    k < n,
                    j <= k + 1,
                    out@ == before + Seq::new(2 * j as nat, |i: int| ' '),
                decreases k + 1 - j,
            {
                push_char(&mut out, ' ');
                push_char(&mut out, ' ');
                proof {
                    assert(out@ =~= before + Seq::new(2 * (j + 1) as nat, |i: int| ' '));
                }
                j = j + 1;
            }
            out.append(f.variant.name());
            out.append(" :: ");
            match &f.ctx {
                Some(c) => {
                    out.append(c.as_str());
                },
                None => match f.variant.explain() {
                    Some(e) => {
                        out.append(e);
                    },
                    None => {
                        out.append("details not available");
                    },
                },
            }
            push_char(&mut out, '\n');
            proof {
                assert(out@ =~= before + frame_line(k as nat, fv));
            }
            k = k + 1;
        }
        out
    }
}

} // verus!
