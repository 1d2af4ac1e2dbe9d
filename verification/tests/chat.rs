use ik_llama_cpp_2::model::chat::{
    ApplyChatTemplateError, ChatCall, LlamaChatMessage, LlamaChatTemplate,
    NewLlamaChatMessageError, TemplateName,
};
use ik_llama_cpp_2::model::meta::ModelFacts;
use ik_llama_cpp_2::step::Step;
use ik_llama_cpp_2::{LlamaModel, LlamaToken};

fn model() -> LlamaModel {
    LlamaModel {
        n_vocab: 1,
        n_nextn_layer: 0,
        bos: LlamaToken(0),
        eos: LlamaToken(0),
        facts: ModelFacts {
            meta_count: 0,
            size: 0,
            n_params: 0,
            n_ctx_train: 0,
            n_embd: 0,
            n_layer: 0,
            rope_type: 0,
        },
    }
}

fn message(role: &str, content: &str) -> LlamaChatMessage {
    LlamaChatMessage::new(role.to_string(), content.to_string()).unwrap()
}

/// A toy engine with one template.
fn engine(call: &ChatCall<'_>) -> (i32, Vec<u8>) {
    let mut prompt: Vec<u8> = Vec::new();
    for m in call.chat {
        prompt.extend_from_slice(b"<|im_start|>");
        prompt.extend_from_slice(m.role.as_bytes());
        prompt.push(b'\n');
        prompt.extend_from_slice(m.content.as_bytes());
        prompt.extend_from_slice(b"<|im_end|>\n");
    }
    if call.add_assistant {
        prompt.extend_from_slice(b"<|im_start|>assistant\n");
    }
    let n = prompt.len() as i32;
    prompt.resize(call.cap as usize, 0);
    (n, prompt)
}

#[test]
fn a_chat_becomes_a_prompt() {
    let tmpl = LlamaChatTemplate::new("chatml").unwrap();
    let chat = vec![message("system", "Be brief."), message("user", "Ça va ?")];
    let call = model().apply_chat_template(&tmpl, &chat, true);
    // Twice the bytes: 6 + 9 + 4 + 8.
    assert_eq!((call.cap, call.retried, call.add_assistant), (54, false, true));
    let (n, buf) = engine(&call);
    assert!(n > call.cap);
    let Step::Call(again) = call.resume(n, buf) else {
        panic!("a longer prompt is asked for again");
    };
    assert_eq!((again.cap, again.retried), (n, true));
    assert!(again.add_assistant);
    let (n, buf) = engine(&again);
    match again.resume(n, buf) {
        Step::Done(Ok(prompt)) => assert_eq!(
            prompt,
            "<|im_start|>system\nBe brief.<|im_end|>\n<|im_start|>user\nÇa va ?<|im_end|>\n<|im_start|>assistant\n"
        ),
        other => panic!("unexpected {other:?}"),
    }
}

#[test]
fn a_short_prompt_takes_one_call() {
    let tmpl = LlamaChatTemplate::new("x").unwrap();
    let chat = vec![message("user", "0123456789")];
    let call = model().apply_chat_template(&tmpl, &chat, false);
    assert_eq!(call.cap, 28);
    match call.resume(5, b"hello.......................".to_vec()) {
        Step::Done(Ok(prompt)) => assert_eq!(prompt, "hello"),
        other => panic!("unexpected {other:?}"),
    }
    let call = model().apply_chat_template(&tmpl, &[], false);
    assert_eq!(call.cap, 0);
    match call.resume(0, vec![]) {
        Step::Done(Ok(prompt)) => assert_eq!(prompt, ""),
        other => panic!("unexpected {other:?}"),
    }
}

#[test]
fn a_chat_can_fail() {
    let tmpl = LlamaChatTemplate::new("x").unwrap();
    let chat = vec![message("user", "hi")];
    let call = || model().apply_chat_template(&tmpl, &chat, false);
    assert!(matches!(
        call().resume(-7, vec![]),
        Step::Done(Err(ApplyChatTemplateError::FfiError(-7)))
    ));
    match call().resume(3, b"a\xffb-----".to_vec()) {
        Step::Done(Err(ApplyChatTemplateError::FromUtf8Error(e))) => {
            assert_eq!((e.valid_up_to, e.bytes), (1, b"a\xffb".to_vec()));
        }
        other => panic!("unexpected {other:?}"),
    }
    let Step::Call(again) = call().resume(100, vec![0; 12]) else {
        panic!("asked again");
    };
    assert!(matches!(
        again.resume(-1, vec![]),
        Step::Done(Err(ApplyChatTemplateError::FfiError(-1)))
    ));
}

#[test]
fn templates_and_messages_check_their_text() {
    let tmpl = LlamaChatTemplate::new("{{ messages }} é").unwrap();
    assert_eq!(tmpl.to_str(), Ok("{{ messages }} é"));
    assert_eq!(tmpl.to_string(), Ok("{{ messages }} é".to_string()));
    assert_eq!(tmpl.as_c_str().as_bytes(), "{{ messages }} é".as_bytes());
    assert_eq!(LlamaChatTemplate::new("a\0b").unwrap_err().position, 1);
    match LlamaChatMessage::new("us\0er".to_string(), "\0".to_string()) {
        Err(NewLlamaChatMessageError::NulError(e)) => assert_eq!(e.position, 2),
        other => panic!("unexpected {other:?}"),
    }
    match LlamaChatMessage::new("user".to_string(), "hey\0".to_string()) {
        Err(NewLlamaChatMessageError::NulError(e)) => assert_eq!(e.position, 3),
        other => panic!("unexpected {other:?}"),
    }
    let m = message("user", "hi");
    assert_eq!(m.clone(), m);
    assert_eq!(tmpl.clone(), tmpl);
}

#[test]
fn a_template_is_looked_up_by_name() {
    let m = model();
    assert_eq!(m.chat_template(None), Some(TemplateName::Default));
    match m.chat_template(Some("tool_use")) {
        Some(TemplateName::Named(name)) => assert_eq!(name.as_bytes(), b"tool_use"),
        other => panic!("unexpected {other:?}"),
    }
    assert_eq!(m.chat_template(Some("to\0ol")), None);
    assert_eq!(m.found_chat_template(None), None);
    let found = m.found_chat_template(Some(b"\xfftemplate".to_vec())).unwrap();
    assert_eq!(found.to_str().unwrap_err().valid_up_to, 0);
    assert_eq!(m.found_chat_template(Some(b"a\0".to_vec())), None);
}
