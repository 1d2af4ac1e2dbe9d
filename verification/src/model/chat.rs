//! Chat templates: from messages to a prompt.

use vstd::prelude::*;
use vstd::utf8::*;

use crate::cstr::{CText, NulError};
use crate::model::LlamaModel;
use crate::step::{cut_to, Step};
use crate::text::{str_from_utf8, string_from_utf8, FromUtf8Error, Utf8Error};

verus! {

/// A chat template: the name of a built-in one, or its source.
#[derive(Debug, PartialEq, Eq, PartialOrd, Ord, Hash)]
pub struct LlamaChatTemplate(pub CText);

/// A message of a chat.
#[derive(Debug, PartialEq, Eq)]
pub struct LlamaChatMessage {
    pub role: CText,
    pub content: CText,
}

/// A message could not be made.
#[derive(Debug, PartialEq, Eq)]
pub enum NewLlamaChatMessageError {
    /// The role or the content held a NUL.
    NulError(NulError),
}

/// A chat template could not be applied.
#[derive(Debug, PartialEq, Eq)]
pub enum ApplyChatTemplateError {
    /// A string held a NUL.
    NulError(NulError),
    /// The prompt is no UTF-8.
    FromUtf8Error(FromUtf8Error),
    /// The engine's status.
    FfiError(i32),
}

impl Clone for LlamaChatTemplate {
    fn clone(&self) -> (template: LlamaChatTemplate)
        ensures
            template.0@ == self.0@,
    {
        LlamaChatTemplate(self.0.clone())
    }
}

impl Clone for LlamaChatMessage {
    fn clone(&self) -> (message: LlamaChatMessage)
        ensures
            message.role@ == self.role@,
            message.content@ == self.content@,
    {
        LlamaChatMessage { role: self.role.clone(), content: self.content.clone() }
    }
}

impl LlamaChatTemplate {
    pub fn new(template: &str) -> (r: Result<LlamaChatTemplate, NulError>)
        ensures
            match r {
                Ok(made) => crate::cstr::is_c_text(encode_utf8(template@), Ok(made.0)),
                Err(e) => crate::cstr::is_c_text(encode_utf8(template@), Err(e)),
            },
    {
        match CText::from_str(template) {
            Ok(text) => Ok(LlamaChatTemplate(text)),
            Err(e) => Err(e),
        }
    }

    /// The template as the engine takes it.
    pub fn as_c_str(&self) -> (text: &CText)
        ensures
            text == self.0,
    {
        &self.0
    }

    /// The template as a string slice.
    pub fn to_str(&self) -> (r: Result<&str, Utf8Error>)
        ensures
            match r {
                Ok(text) => valid_utf8(self.0@) && text@ == decode_utf8(self.0@),
                Err(e) => !valid_utf8(self.0@) && crate::text::is_valid_up_to(
                    self.0@,
                    e.valid_up_to as int,
                ),
            },
    {
        str_from_utf8(self.0.as_bytes())
    }

    /// The template as a string.
    pub fn to_string(&self) -> (r: Result<String, Utf8Error>)
        ensures
            match r {
                Ok(text) => valid_utf8(self.0@) && text@ == decode_utf8(self.0@),
                Err(e) => !valid_utf8(self.0@) && crate::text::is_valid_up_to(
                    self.0@,
                    e.valid_up_to as int,
                ),
            },
    {
        match self.to_str() {
            Ok(text) => Ok(text.to_owned()),
            Err(e) => Err(e),
        }
    }
}

impl LlamaChatMessage {
    /// The role is looked at before the content.
    pub fn new(role: String, content: String) -> (r: Result<
        LlamaChatMessage,
        NewLlamaChatMessageError,
    >)
        ensures
            match r {
                Ok(message) => {
                    &&& crate::cstr::is_c_text(encode_utf8(role@), Ok(message.role))
                    &&& crate::cstr::is_c_text(encode_utf8(content@), Ok(message.content))
                },
                Err(NewLlamaChatMessageError::NulError(e)) => {
                    ||| e.found_in(encode_utf8(role@))
                    ||| crate::cstr::nul_free(encode_utf8(role@)) && e.found_in(
                        encode_utf8(content@),
                    )
                },
            },
    {
        let role = match CText::from_str(role.as_str()) {
            Ok(text) => text,
            Err(e) => return Err(NewLlamaChatMessageError::NulError(e)),
        };
        let content = match CText::from_str(content.as_str()) {
            Ok(text) => text,
            Err(e) => return Err(NewLlamaChatMessageError::NulError(e)),
        };
        Ok(LlamaChatMessage { role, content })
    }
}

/// The number of bytes in the roles and contents of a chat.
pub open spec fn chat_bytes(chat: Seq<LlamaChatMessage>) -> nat
    decreases chat.len(),
{
    if chat.len() == 0 {
        0
    } else {
        chat_bytes(chat.drop_last()) + chat.last().role@.len() + chat.last().content@.len()
    }
}

/// The size of the buffer that is tried first: twice the bytes of the chat, as
/// far as the engine can be told of them.
pub open spec fn first_cap(chat: Seq<LlamaChatMessage>) -> int {
    if 2 * chat_bytes(chat) <= i32::MAX {
        2 * chat_bytes(chat) as int
    } else {
        i32::MAX as int
    }
}

/// A call that applies a template to a chat.
#[derive(Debug)]
pub struct ChatCall<'a> {
    pub tmpl: &'a LlamaChatTemplate,
    pub chat: &'a [LlamaChatMessage],
    /// Whether the prompt ends where the assistant begins.
    pub add_assistant: bool,
    /// The size of the buffer for the answer.
    pub cap: i32,
    /// Whether the engine has been asked before, with too small a buffer.
    pub retried: bool,
}

impl<'a> ChatCall<'a> {
    /// The prompt is too long for the buffer, and the engine is to be asked again.
    pub open spec fn asks_again(self, n: i32) -> bool {
        n > self.cap && n >= 0 && !self.retried
    }

    /// The same call with room for `n` bytes.
    pub open spec fn enlarged(self, n: i32) -> ChatCall<'a> {
        ChatCall { cap: n, retried: true, ..self }
    }

    /// Reads the engine's answer: the length of the prompt, of which `buf` holds
    /// as much as there was room for, or a negative status. A prompt that is too
    /// long for the first buffer is asked for again.
    pub fn resume(self, n: i32, buf: Vec<u8>) -> (step: Step<
        ChatCall<'a>,
        Result<String, ApplyChatTemplateError>,
    >)
        ensures
            match step {
                Step::Done(Ok(prompt)) => {
                    &&& n >= 0 && !self.asks_again(n)
                    &&& crate::text::is_text(crate::step::cut(buf@, n as int), Ok(prompt))
                },
                Step::Done(Err(ApplyChatTemplateError::FfiError(status))) => n < 0 && status == n,
                Step::Done(Err(ApplyChatTemplateError::FromUtf8Error(e))) => {
                    &&& n >= 0 && !self.asks_again(n)
                    &&& crate::text::is_text(crate::step::cut(buf@, n as int), Err(e))
                },
                Step::Done(Err(ApplyChatTemplateError::NulError(_))) => false,
                Step::Call(again) => self.asks_again(n) && again == self.enlarged(n),
            },
            step is Done ==> n < 0 || n <= self.cap || self.retried,
            step matches Step::Call(again) ==> {
                &&& n > self.cap
                &&& !self.retried
                &&& again.cap == n
                &&& again.retried
                &&& again.tmpl == self.tmpl
                &&& again.chat == self.chat
                &&& again.add_assistant == self.add_assistant
            },
    {
        if n < 0 {
            return Step::Done(Err(ApplyChatTemplateError::FfiError(n)));
        }
        if n > self.cap && !self.retried {
            return Step::Call(ChatCall { cap: n, retried: true, ..self });
        }
        match string_from_utf8(cut_to(buf, n)) {
            Ok(prompt) => Step::Done(Ok(prompt)),
            Err(e) => Step::Done(Err(ApplyChatTemplateError::FromUtf8Error(e))),
        }
    }
}

/// The engine is asked for a prompt at most twice, with the same template and the
/// same chat; and where it wants the same room the second time, the prompt fits.
pub proof fn lemma_prompt_is_asked_for_at_most_twice(call: ChatCall, n: i32, m: i32)
    requires
        call.asks_again(n),
    ensures
        !call.enlarged(n).asks_again(m),
        m <= n ==> m <= call.enlarged(n).cap,
        call.enlarged(n).tmpl == call.tmpl,
        call.enlarged(n).chat == call.chat,
        call.enlarged(n).add_assistant == call.add_assistant,
{
}

/// A name to look a template up by.
#[derive(Debug, PartialEq, Eq)]
pub enum TemplateName {
    /// The model's default.
    Default,
    Named(CText),
}

impl LlamaModel {
    /// The first half of looking up a template of the model: the name as the
    /// engine takes it. There is no template whose name holds a NUL.
    pub fn chat_template(&self, name: Option<&str>) -> (query: Option<TemplateName>)
        ensures
            match name {
                None => query == Some(TemplateName::Default),
                Some(name) => if crate::cstr::nul_free(encode_utf8(name@)) {
                    &&& query matches Some(TemplateName::Named(text))
                    &&& text@ == encode_utf8(name@)
                } else {
                    query is None
                },
            },
    {
        match name {
            None => Some(TemplateName::Default),
            Some(name) => match CText::from_str(name) {
                Ok(text) => Some(TemplateName::Named(text)),
                Err(_) => None,
            },
        }
    }

    /// The second half: the template that the engine found, if any.
    pub fn found_chat_template(&self, found: Option<Vec<u8>>) -> (template: Option<
        LlamaChatTemplate,
    >)
        ensures
            match template {
                Some(template) => found is Some && template.0@ == found->0@
                    && crate::cstr::nul_free(found->0@),
                None => found is None || !crate::cstr::nul_free(found->0@),
            },
    {
        match found {
            Some(bytes) => match CText::new(bytes) {
                Ok(text) => Some(LlamaChatTemplate(text)),
                Err(_) => None,
            },
            None => None,
        }
    }

    /// Starts turning a chat into a prompt.
    pub fn apply_chat_template<'a>(
        &self,
        tmpl: &'a LlamaChatTemplate,
        chat: &'a [LlamaChatMessage],
        add_assistant: bool,
    ) -> (call: ChatCall<'a>)
        ensures
            call.tmpl == tmpl,
            call.chat == chat,
            call.add_assistant == add_assistant,
            call.cap == first_cap(chat@),
            !call.retried,
    {
        let mut total: usize = 0;
        let mut i: usize = 0;
        assert(chat@.take(0) =~= Seq::empty());
        while i < chat.len()
            invariant
                i <= chat@.len(),
                total == if chat_bytes(chat@.take(i as int)) <= usize::MAX {
                    chat_bytes(chat@.take(i as int)) as int
                } else {
                    usize::MAX as int
                },
            decreases chat@.len() - i,
        {
            proof {
                let upto = chat@.take(i + 1);
                assert(upto.drop_last() =~= chat@.take(i as int));
                assert(upto.last() == chat@[i as int]);
            }
            total = total.saturating_add(chat[i].role.len()).saturating_add(chat[i].content.len());
            i += 1;
        }
        assert(chat@.take(i as int) =~= chat@);
        let cap: i32 = if total <= (i32::MAX / 2) as usize {
            2 * total as i32
        } else {
            i32::MAX
        };
        ChatCall { tmpl, chat, add_assistant, cap, retried: false }
    }
}

/// Nothing of a prompt is lost. The engine's prompt is the bytes `prompt`, and it
/// answers a call of capacity `cap` with their number and the first of them, as many
/// as there is room for. Then one call is enough where all of them fit, and the
/// second call has just the room that is wanted where they do not; and what is left
/// in the end is the text of all the bytes, or the error for them where they are no
/// text, whatever the capacity of the first call.
pub proof fn lemma_prompt_comes_whole(
    call: ChatCall,
    prompt: Seq<u8>,
    n: i32,
    buf: Vec<u8>,
    step: Step<ChatCall, Result<String, ApplyChatTemplateError>>,
    again_n: i32,
    again_buf: Vec<u8>,
    again_step: Step<ChatCall, Result<String, ApplyChatTemplateError>>,
)
    requires
        prompt.len() <= i32::MAX,
        call.cap >= 0,
        !call.retried,
        n == prompt.len(),
        buf@.len() == call.cap,
        prompt.len() <= call.cap ==> buf@.take(n as int) == prompt,
        prompt.len() > call.cap ==> buf@ == prompt.take(call.cap as int),
        call_ensures(ChatCall::resume, (call, n, buf), step),
        step matches Step::Call(again) ==> {
            &&& again_n == prompt.len()
            &&& again_buf@.len() == again.cap
            &&& prompt.len() <= again.cap ==> again_buf@.take(again_n as int) == prompt
            &&& prompt.len() > again.cap ==> again_buf@ == prompt.take(again.cap as int)
            &&& call_ensures(ChatCall::resume, (again, again_n, again_buf), again_step)
        },
    ensures
        step is Call <==> prompt.len() > call.cap,
        step matches Step::Call(again) ==> {
            &&& again.cap == prompt.len()
            &&& again.tmpl == call.tmpl
            &&& again.chat == call.chat
            &&& again.add_assistant == call.add_assistant
        },
        ({
            let last = if step is Call {
                again_step
            } else {
                step
            };
            &&& last is Done
            &&& last->Done_0 is Ok <==> valid_utf8(prompt)
            &&& last->Done_0 matches Ok(text) ==> text@ == decode_utf8(prompt) && encode_utf8(text@)
                == prompt
            &&& last->Done_0 matches Err(e) ==> e is FromUtf8Error
                && e->FromUtf8Error_0.bytes@ == prompt
        }),
{
    assert(buf@.take(buf@.len() as int) =~= buf@);
    assert(again_buf@.take(again_buf@.len() as int) =~= again_buf@);
    if valid_utf8(prompt) {
        decode_utf8_encode_utf8(prompt);
    }
}

/// A negative answer is the engine's refusal, and is reported as it is.
pub proof fn lemma_refused_chat_is_an_error(
    call: ChatCall,
    n: i32,
    buf: Vec<u8>,
    step: Step<ChatCall, Result<String, ApplyChatTemplateError>>,
)
    requires
        n < 0,
        call_ensures(ChatCall::resume, (call, n, buf), step),
    ensures
        step is Done,
        step->Done_0 is Err,
        step->Done_0->Err_0 == ApplyChatTemplateError::FfiError(n),
{
}

/// The first buffer for a chat has two bytes for each byte of its messages, and a
/// call carries what it was asked for. A message more makes room for twice the bytes
/// of its role and its content more, as far as the engine can be told of it.
pub proof fn lemma_first_buffer_grows_with_the_chat(
    model: LlamaModel,
    tmpl: &LlamaChatTemplate,
    chat: &[LlamaChatMessage],
    longer: &[LlamaChatMessage],
    message: LlamaChatMessage,
    add_assistant: bool,
    first: ChatCall,
    second: ChatCall,
)
    requires
        longer@ == chat@.push(message),
        call_ensures(LlamaModel::apply_chat_template, (&model, tmpl, chat, add_assistant), first),
        call_ensures(
            LlamaModel::apply_chat_template,
            (&model, tmpl, longer, add_assistant),
            second,
        ),
    ensures
        first.tmpl == tmpl,
        first.chat == chat,
        first.add_assistant == add_assistant,
        !first.retried,
        first.cap >= 0,
        chat@.len() == 0 ==> first.cap == 0,
        first.cap < i32::MAX ==> second.cap == if first.cap + 2 * (message.role@.len()
            + message.content@.len()) <= i32::MAX {
            first.cap + 2 * (message.role@.len() + message.content@.len())
        } else {
            i32::MAX as int
        },
        first.cap == i32::MAX ==> second.cap == i32::MAX,
{
    assert(longer@.drop_last() =~= chat@);
}

/// A template and the two parts of a message are taken as they are written; each is
/// refused just where it holds a NUL, and a template reads back as it was written.
pub proof fn lemma_chat_is_taken_as_written(
    template: &str,
    made: Result<LlamaChatTemplate, NulError>,
    role: String,
    content: String,
    message: Result<LlamaChatMessage, NewLlamaChatMessageError>,
    read: Result<&str, Utf8Error>,
)
    requires
        call_ensures(LlamaChatTemplate::new, (template,), made),
        made is Ok ==> call_ensures(LlamaChatTemplate::to_str, (&made->Ok_0,), read),
        call_ensures(LlamaChatMessage::new, (role, content), message),
    ensures
        made is Ok <==> !template@.contains('\0'),
        made is Ok ==> made->Ok_0.0@ == encode_utf8(template@),
        made is Ok ==> read is Ok && read->Ok_0@ == template@,
        message is Ok <==> !role@.contains('\0') && !content@.contains('\0'),
        message matches Ok(message) ==> {
            &&& message.role@ == encode_utf8(role@)
            &&& message.content@ == encode_utf8(content@)
        },
        message matches Err(NewLlamaChatMessageError::NulError(e)) ==> e.bytes@ == if role@.contains(
            '\0',
        ) {
            encode_utf8(role@)
        } else {
            encode_utf8(content@)
        },
{
    crate::cstr::lemma_nul_byte_iff_nul_char(template@);
    crate::cstr::lemma_nul_byte_iff_nul_char(role@);
    crate::cstr::lemma_nul_byte_iff_nul_char(content@);
    encode_utf8_valid_utf8(template@);
    encode_utf8_decode_utf8(template@);
    if let Err(NewLlamaChatMessageError::NulError(e)) = message {
        if e.found_in(encode_utf8(role@)) {
            crate::cstr::lemma_error_points_at_the_first_nul(e, encode_utf8(role@));
        }
        if e.found_in(encode_utf8(content@)) {
            crate::cstr::lemma_error_points_at_the_first_nul(e, encode_utf8(content@));
        }
    }
}

} // verus!
