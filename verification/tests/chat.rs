//! Chats: their prompts, their answers and their sessions.

use rsinfer::chat::{
    answer_only, parse_command, render_chat, trace_window_bounds, unescape, Command, Message,
    Reaction, Role, Session,
};
use rsinfer::error::RsinferError;
use rsinfer::engine::tokenizer::{
    can_decode, can_encode, decode, encode, has_token, stop_tokens, tokenizer_result,
    tokenizer_stops, try_decode, try_encode,
};
use rsinfer::model::config::{
    default_eos_token_id, default_max_position, default_rms_norm_eps, default_rope_theta,
};
use rsinfer::text::{
    find_chars, parse_size, push_dec, push_hex, push_shape, replace_chars, split_chars, string_of,
    trim_chars,
};

fn message(role: Role, content: &str) -> Message {
    Message { role, content: content.to_string() }
}

#[test]
fn a_chat_is_rendered_turn_by_turn() {
    let history = vec![message(Role::User, "hi"), message(Role::Assistant, "yo")];
    assert_eq!(
        render_chat(Some("be kind"), &history),
        "<|im_start|>system\nbe kind<|im_end|>\n<|im_start|>user\nhi<|im_end|>\n\
         <|im_start|>assistant\nyo<|im_end|>\n<|im_start|>assistant\n<think>\n"
    );
    assert_eq!(render_chat(None, &[]), "<|im_start|>assistant\n<think>\n");
}

#[test]
fn thoughts_are_left_out_of_an_answer() {
    assert_eq!(answer_only("let me see</think>\n\n 42 \n"), "42");
    assert_eq!(answer_only("a</think>b</think>c"), "b</think>c");
    assert_eq!(answer_only("plain"), "plain");
}

#[test]
fn escapes_are_resolved() {
    assert_eq!(unescape("a\\nb\\tc\\rd\\\\e"), "a\nb\tc\rd\\e");
    assert_eq!(unescape("plain"), "plain");
}

#[test]
fn windows_of_a_trace() {
    assert_eq!(trace_window_bounds(100), (4, 48, 52, 96));
    assert_eq!(trace_window_bounds(3), (3, 0, 3, 0));
    assert_eq!(trace_window_bounds(0), (0, 0, 0, 0));
}

#[test]
fn lines_are_commands() {
    assert!(matches!(parse_command("  \n"), Command::Empty));
    assert!(matches!(parse_command("exit\n"), Command::Exit));
    assert!(matches!(parse_command(" quit"), Command::Exit));
    assert!(matches!(parse_command("reset"), Command::Reset));
    match parse_command(" hello there \n") {
        Command::Say(s) => assert_eq!(s, "hello there"),
        _ => panic!("it is said"),
    }
}

fn asked(r: Reaction) -> String {
    match r {
        Reaction::Ask(s) => s,
        _ => panic!("the model is asked"),
    }
}

#[test]
fn a_session_remembers_until_it_is_reset() {
    let mut session = Session::new(true, Some("s".to_string()));
    assert!(matches!(session.on_line("\n"), Reaction::Ignore));
    let first = asked(session.on_line("one"));
    assert!(first.contains("<|im_start|>user\none<|im_end|>"));
    session.on_answer("thinking</think> uno ");
    let second = asked(session.on_line("two"));
    assert!(second.contains("<|im_start|>assistant\nuno<|im_end|>"));
    assert!(second.contains("<|im_start|>user\ntwo<|im_end|>"));
    session.on_answer("dos");
    assert!(matches!(session.on_line("reset"), Reaction::Cleared));
    let third = asked(session.on_line("three"));
    assert!(!third.contains("uno"));
    assert!(third.contains("<|im_start|>system\ns<|im_end|>"));
    assert!(matches!(session.on_line("exit"), Reaction::Quit));
}

#[test]
fn without_a_chat_a_line_is_the_prompt() {
    let mut session = Session::new(false, None);
    assert_eq!(asked(session.on_line("one\n")), "one");
    session.on_answer("uno");
    assert_eq!(asked(session.on_line("two\n")), "two");
}

/// A tokenizer of three words and one special token.
fn words() -> String {
    "{\"version\":\"1.0\",\"truncation\":null,\"padding\":null,\"added_tokens\":[\
     {\"id\":3,\"content\":\"<|im_end|>\",\"single_word\":false,\"lstrip\":false,\
     \"rstrip\":false,\"normalized\":false,\"special\":true}],\"normalizer\":null,\
     \"pre_tokenizer\":{\"type\":\"Whitespace\"},\"post_processor\":null,\"decoder\":null,\
     \"model\":{\"type\":\"WordLevel\",\"vocab\":{\"red\":0,\"green\":1,\"[UNK]\":2},\
     \"unk_token\":\"[UNK]\"}}"
        .to_string()
}

/// A tokenizer that merges byte pairs, with the given parts.
fn pairs(truncation: &str, splitter: &str, decoder: &str) -> tokenizers::Tokenizer {
    let text = format!(
        "{{\"version\":\"1.0\",\"truncation\":{truncation},\"padding\":null,\"added_tokens\":[],\
         \"normalizer\":{{\"type\":\"NFC\"}},\"pre_tokenizer\":{splitter},\
         \"post_processor\":null,\"decoder\":{decoder},\
         \"model\":{{\"type\":\"BPE\",\"vocab\":{{\"a\":0,\"b\":1,\"ab\":2,\"c\":3}},\
         \"merges\":[\"a b\"]}}}}"
    );
    tokenizers::Tokenizer::from_bytes(text.as_bytes()).unwrap()
}

const BYTES: &str = "{\"type\":\"ByteLevel\",\"add_prefix_space\":false,\"trim_offsets\":false,\
                     \"use_regex\":false}";

fn read(text: &str) -> Result<tokenizers::Tokenizer, RsinferError> {
    tokenizer_result(tokenizers::Tokenizer::from_bytes(text.as_bytes()).map_err(|e| e.to_string()))
}

#[test]
fn a_tokenizer_turns_words_into_tokens_and_back() {
    let tokenizer = pairs("null", BYTES, BYTES);
    assert!(can_encode(&tokenizer) && can_decode(&tokenizer));
    assert_eq!(encode(&tokenizer, "cabba").unwrap(), vec![3, 2, 1, 0]);
    assert_eq!(try_encode(&tokenizer, "abc").unwrap().unwrap(), vec![2, 3]);
    assert_eq!(decode(&tokenizer, &[3, 2, 1, 0]).unwrap(), "cabba");
    let words = read(&words()).unwrap();
    assert_eq!(try_decode(&words, &[1, 0]).unwrap().unwrap(), "green red");
    assert_eq!(decode(&words, &[1, 3]).unwrap(), "green");
    assert_eq!(tokenizer_stops(&words, 7), vec![7, 3]);
    assert_eq!(tokenizer_stops(&words, 3), vec![3]);
}

#[test]
fn only_tokenizers_that_take_any_text_are_run() {
    assert!(try_encode(&read(&words()).unwrap(), "green").is_none());
    let none = "{\"type\":\"FixedLength\",\"length\":0}";
    assert!(!can_encode(&pairs("null", none, "null")));
    let list = format!("{{\"type\":\"Sequence\",\"pretokenizers\":[{BYTES},{BYTES}]}}");
    assert!(can_encode(&pairs("null", &list, "null")));
    let mixed = format!("{{\"type\":\"Sequence\",\"pretokenizers\":[{BYTES},{none}]}}");
    assert!(!can_encode(&pairs("null", &mixed, "null")));
    let split = |pattern: &str| {
        format!(
            "{{\"type\":\"Split\",\"pattern\":{{\"Regex\":\"{pattern}\"}},\
             \"behavior\":\"Isolated\",\"invert\":false}}"
        )
    };
    let by_c = pairs("null", &split("c"), "null");
    assert_eq!(try_encode(&by_c, "acab").unwrap().unwrap(), vec![0, 3, 2]);
    assert!(!can_encode(&pairs("null", &split("a|(?<=\\\\Ka)b"), "null")));
    let added = words().replace("\"lstrip\":false", "\"lstrip\":true");
    let model = "\"model\":{\"type\":\"BPE\",\"vocab\":{\"a\":0},\"merges\":[]}}";
    let left = |text: &str| read(&format!("{}{model}", &text[..text.find("\"model\"").unwrap()]));
    let bare = |text: String| text.replace("{\"type\":\"Whitespace\"}", "null");
    assert!(can_encode(&left(&bare(words())).unwrap()));
    assert!(!can_encode(&left(&bare(added)).unwrap()));
    let cut = |most: usize, again: usize| {
        format!(
            "{{\"direction\":\"Right\",\"max_length\":{most},\"strategy\":\"LongestFirst\",\
             \"stride\":{again}}}"
        )
    };
    assert!(try_encode(&pairs(&cut(2, 2), BYTES, "null"), "ccc").is_none());
    let short = pairs(&cut(2, 1), BYTES, "null");
    assert_eq!(try_encode(&short, "cca").unwrap().unwrap(), vec![3, 3]);
}

#[test]
fn only_decoders_that_take_any_tokens_are_run() {
    let strip = |stop: usize| {
        format!("{{\"type\":\"Strip\",\"content\":\"c\",\"start\":1,\"stop\":{stop}}}")
    };
    let front = pairs("null", BYTES, &strip(0));
    assert_eq!(try_decode(&front, &[3, 0]).unwrap().unwrap(), "a");
    assert!(try_decode(&pairs("null", BYTES, &strip(2)), &[3]).is_none());
    let both = format!("{{\"type\":\"Sequence\",\"decoders\":[{BYTES},{}]}}", strip(1));
    assert!(!can_decode(&pairs("null", BYTES, &both)));
    let suffix = "{\"type\":\"BPEDecoder\",\"suffix\":\"</w>\"}";
    assert!(!can_decode(&pairs("null", BYTES, suffix)));
    let swap = "{\"type\":\"Replace\",\"pattern\":{\"String\":\"c\"},\"content\":\"d\"}";
    assert!(!can_decode(&pairs("null", BYTES, swap)));
    let fuse = pairs("null", BYTES, "{\"type\":\"Fuse\"}");
    assert_eq!(try_decode(&fuse, &[0, 3]).unwrap().unwrap(), "ac");
}

#[test]
fn a_broken_tokenizer_is_refused() {
    let e = read("{").unwrap_err();
    assert!(e.message().starts_with("Tokenizer error: "));
}

#[test]
fn stop_tokens_stand_once() {
    assert_eq!(stop_tokens(1, Some(2), Some(3)), vec![1, 2, 3]);
    assert_eq!(stop_tokens(1, Some(1), Some(1)), vec![1]);
    assert_eq!(stop_tokens(1, None, Some(2)), vec![1, 2]);
    assert!(has_token(&[1, 2], 2));
    assert!(!has_token(&[1, 2], 3));
}

#[test]
fn a_model_that_names_nothing_has_defaults() {
    assert_eq!(default_max_position(), 2048);
    assert_eq!(f32::from_bits(default_rms_norm_eps()), 1e-5);
    assert_eq!(f32::from_bits(default_rope_theta()), 10000.0);
    assert_eq!(default_eos_token_id(), 2);
}

#[test]
fn texts_are_built_and_taken_apart() {
    let mut s = String::new();
    push_dec(&mut s, 1_234_567_890_123);
    s.push(' ');
    push_hex(&mut s, 0xbeef, 8);
    s.push(' ');
    push_shape(&mut s, &[1, 2, 3]);
    assert_eq!(s, "1234567890123 0000beef [1, 2, 3]");
    let chars: Vec<char> = " a,b ,c\t".chars().collect();
    assert_eq!(string_of(trim_chars(&chars)), "a,b ,c");
    assert_eq!(split_chars(&chars, ',').len(), 3);
    assert_eq!(find_chars(&chars, &['b', ' ']), Some(3));
    assert_eq!(string_of(&replace_chars(&chars, &[','], &[';', ';'])), " a;;b ;;c\t");
    assert_eq!(parse_size(&['4', '2']), Some(42));
    assert_eq!(parse_size(&['4', 'x']), None);
    assert_eq!(parse_size(&[]), None);
}
