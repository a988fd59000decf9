//! How the server words what it hands the agent back: the acknowledgement or
//! the rejection of a `show`, the line of a `clear`, and the marks, one image
//! per view with the line that introduces it.
use vstd::prelude::*;
use vstd::string::*;

verus! {

/// A view whose marks are being delivered: the picture of the whole sheet with
/// the ink baked in, and whether the ink was drawn over the sheet as it was
/// before the agent last replaced the view.
#[derive(Debug)]
pub struct MarkedSheet {
    pub view_id: String,
    pub before_the_last_replace: bool,
    pub png: Vec<u8>,
}

/// One piece of a tool's reply.
#[derive(Debug)]
pub enum Content {
    Text(String),
    Image { data: String, mime_type: String },
}

/// A tool's reply: its pieces, and whether it is a rejection. A rejection is a
/// result, not a transport error.
#[derive(Debug)]
pub struct ToolReply {
    pub is_error: bool,
    pub content: Vec<Content>,
}

/// The standard base64 alphabet's encoding, with padding, of `bytes`.
pub uninterp spec fn standard_base64(bytes: Seq<u8>) -> Seq<char>;

/// The length of a padded base64 encoding of `len` bytes: four characters for
/// every three bytes or part of three.
pub open spec fn padded_base64_len(len: nat) -> nat {
    4 * ((len + 2) / 3)
}

/// Encodes `bytes` with `base64::engine::general_purpose::STANDARD` through
/// `base64::Engine::encode`. Claimed: the result is the named standard
/// encoding of the bytes, padded, so four characters for each three bytes or
/// part of three. The crate panics where that length overflows `usize`, which
/// `requires` leaves out.
#[verifier::external_body]
fn encode_base64(bytes: &[u8]) -> (encoded: String)
    requires
        padded_base64_len(bytes@.len()) <= usize::MAX,
    ensures
        encoded@ == standard_base64(bytes@),
        encoded@.len() == padded_base64_len(bytes@.len()),
{
    base64::Engine::encode(&base64::engine::general_purpose::STANDARD, bytes)
}

/// The line that introduces a delivered image.
pub open spec fn reply_line(view_id: Seq<char>, before_the_last_replace: bool) -> Seq<char> {
    if before_the_last_replace {
        "Marks on view \""@ + view_id
            + "\" - drawn over the sheet as it was before the last replace:"@
    } else {
        "Marks on view \""@ + view_id + "\":"@
    }
}

/// The line that introduces a delivered image names the view whatever its id,
/// and ink drawn before the last replace always carries the annotation: the two
/// lines of one view differ, and both begin with the quoted id.
pub proof fn the_annotation_is_never_dropped(view_id: Seq<char>)
    ensures
        reply_line(view_id, true) == "Marks on view \""@ + view_id
            + "\" - drawn over the sheet as it was before the last replace:"@,
        reply_line(view_id, false) == "Marks on view \""@ + view_id + "\":"@,
        reply_line(view_id, true) != reply_line(view_id, false),
        reply_line(view_id, true).subrange(0, 15 + view_id.len() as int) == "Marks on view \""@ + view_id,
        reply_line(view_id, false).subrange(0, 15 + view_id.len() as int) == "Marks on view \""@ + view_id,
{
    reveal_strlit("Marks on view \"");
    reveal_strlit("\" - drawn over the sheet as it was before the last replace:");
    reveal_strlit("\":");
    assert(reply_line(view_id, true).len() != reply_line(view_id, false).len());
    assert(reply_line(view_id, true).subrange(0, 15 + view_id.len() as int) =~= "Marks on view \""@ + view_id);
    assert(reply_line(view_id, false).subrange(0, 15 + view_id.len() as int) =~= "Marks on view \""@ + view_id);
}

/// The line that introduces a delivered image. Ink folded against a sheet the
/// agent has since replaced says so: the circles are about the old diagram,
/// and the agent must not read them as comments on the new one.
pub fn the_reply_to(sheet: &MarkedSheet) -> (line: String)
    ensures
        line@ == reply_line(sheet.view_id@, sheet.before_the_last_replace),
{
    let mut line = String::from_str("Marks on view \"");
    line.append(sheet.view_id.as_str());
    if sheet.before_the_last_replace {
        line.append("\" - drawn over the sheet as it was before the last replace:");
    } else {
        line.append("\":");
    }
    line
}

/// The piece is the text `text`.
pub open spec fn is_text(content: Content, text: Seq<char>) -> bool {
    content matches Content::Text(t) && t@ == text
}

/// The piece is the PNG picture `png`, in base64.
pub open spec fn is_png(content: Content, png: Seq<u8>) -> bool {
    &&& content matches Content::Image { data, mime_type }
    &&& data@ == standard_base64(png)
    &&& mime_type@ == "image/png"@
}

/// A reply whose only piece is the text `text`.
pub open spec fn says_only(reply: ToolReply, text: Seq<char>) -> bool {
    reply.content@.len() == 1 && is_text(reply.content@[0], text)
}

fn text_only(is_error: bool, text: String) -> (reply: ToolReply)
    ensures
        reply.is_error == is_error,
        says_only(reply, text@),
{
    let mut content = Vec::new();
    content.push(Content::Text(text));
    ToolReply { is_error, content }
}

/// The reply to a `show`: the acknowledgement as a success, or the rejection
/// as a result marked as an error, never as a failure of the call.
pub fn show_reply(outcome: Result<String, String>) -> (reply: ToolReply)
    ensures
        match outcome {
            Ok(acknowledgement) => !reply.is_error && says_only(reply, acknowledgement@),
            Err(rejection) => reply.is_error && says_only(reply, rejection@),
        },
{
    match outcome {
        Ok(acknowledgement) => text_only(false, acknowledgement),
        Err(rejection) => text_only(true, rejection),
    }
}

/// The reply to a `clear`: its line, as a success.
pub fn clear_reply(text: String) -> (reply: ToolReply)
    ensures
        !reply.is_error,
        says_only(reply, text@),
{
    text_only(false, text)
}

/// The line of a `marks` with nothing new.
pub open spec fn nothing_new() -> Seq<char> {
    "No marks waiting."@
}

/// The reply to `marks`: for each view with undelivered marks, in order, the
/// line that introduces it and the picture; one line when there is nothing
/// new. Never an error.
pub fn marks_reply(delivered: Vec<MarkedSheet>) -> (reply: ToolReply)
    requires
        forall|i: int|
            0 <= i < delivered@.len() ==> padded_base64_len(#[trigger] delivered@[i].png@.len())
                <= usize::MAX,
    ensures
        !reply.is_error,
        delivered@.len() == 0 ==> says_only(reply, nothing_new()),
        delivered@.len() > 0 ==> {
            &&& reply.content@.len() == 2 * delivered@.len()
            &&& forall|i: int|
                0 <= i < delivered@.len() ==> is_text(
                    #[trigger] reply.content@[2 * i],
                    reply_line(delivered@[i].view_id@, delivered@[i].before_the_last_replace),
                ) && is_png(reply.content@[2 * i + 1], delivered@[i].png@)
        },
{
    let mut content: Vec<Content> = Vec::new();
    let n = delivered.len();
    let mut i: usize = 0;
    while i < n
        invariant
            n == delivered@.len(),
            i <= n,
            content@.len() == 2 * i,
            forall|j: int|
                0 <= j < delivered@.len() ==> padded_base64_len(#[trigger] delivered@[j].png@.len())
                    <= usize::MAX,
            forall|j: int|
                0 <= j < i ==> is_text(
                    #[trigger] content@[2 * j],
                    reply_line(delivered@[j].view_id@, delivered@[j].before_the_last_replace),
                ) && is_png(content@[2 * j + 1], delivered@[j].png@),
        decreases n - i,
    {
        let sheet = &delivered[i];
        let line = the_reply_to(sheet);
        let data = encode_base64(sheet.png.as_slice());
        let ghost earlier = content@;
        content.push(Content::Text(line));
        content.push(Content::Image { data, mime_type: String::from_str("image/png") });
        proof {
            assert forall|j: int| 0 <= j < i + 1 implies is_text(
                #[trigger] content@[2 * j],
                reply_line(delivered@[j].view_id@, delivered@[j].before_the_last_replace),
            ) && is_png(content@[2 * j + 1], delivered@[j].png@) by {
                if j < i {
                    assert(content@[2 * j] == earlier[2 * j]);
                    assert(content@[2 * j + 1] == earlier[2 * j + 1]);
                }
            }
        }
        i += 1;
    }
    if n == 0 {
        return text_only(false, String::from_str("No marks waiting."));
    }
    ToolReply { is_error: false, content }
}

} // verus!
