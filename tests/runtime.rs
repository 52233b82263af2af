use craby_codegen::runtime::{reject, resolve, Context, Nullable};
use craby_codegen::suggestion::{Suggestion, SuggestionType};
use craby_codegen::toolchain::{get_ndk_clang_path, get_ndk_llvm_ar_path, Abi, Identifier, Target, ToolchainError};

#[test]
fn nullable_holds_its_value() {
    assert_eq!(Nullable::some(3).into_value(), Some(3));
    assert_eq!(Nullable::<i32>::none().into_value(), None);
    assert_eq!(Nullable::new(Some(1)).value(2).into_value(), Some(2));
    let n = Nullable::some(7);
    assert_eq!(n.value_of(), Some(&7));
    assert_eq!(Nullable::<u8>::new(None).value_of(), None);
}

#[test]
fn promise_helpers() {
    assert!(matches!(resolve::<u8>(4), Ok(4)));
    match reject::<u8>("boom") {
        Err(e) => assert_eq!(e.message, "boom"),
        Ok(_) => panic!("expected a rejection"),
    }
}

#[test]
fn context_keeps_fields() {
    let c = Context::new(9, "/data");
    assert_eq!(c.id, 9);
    assert_eq!(c.data_path, "/data");
}

#[test]
fn toolchain_names() {
    assert_eq!(Target::Android(Abi::ArmeAbiV7a).to_str(), "armv7-linux-androideabi");
    assert_eq!(Target::Ios(Identifier::Arm64Simulator).to_str(), "aarch64-apple-ios-sim");
    assert_eq!(Abi::X86_64.to_str(), "x86_64");
    assert_eq!(Abi::Arm64V8a.to_clang_name(true), "aarch64-linux-android23-clang++");
    assert_eq!(Abi::ArmeAbiV7a.to_clang_name(false), "armv7a-linux-androideabi23-clang");
    assert_eq!(Identifier::Simulator.try_into_str(), Ok("ios-arm64_x86_64-simulator"));
    assert_eq!(Identifier::Arm64Simulator.try_into_str(), Err(ToolchainError::InvalidIdentifier));
}

#[test]
fn ndk_environment() {
    let bin = "/ndk/bin".to_string();
    assert_eq!(get_ndk_clang_path(&Abi::X86, false, &bin), "/ndk/bin/i686-linux-android23-clang");
    assert_eq!(get_ndk_llvm_ar_path(&bin), "/ndk/bin/llvm-ar");
    let env = Abi::X86.to_env(&bin);
    assert_eq!(env[0], ("CXX_i686_linux_android".to_string(), "/ndk/bin/i686-linux-android23-clang++".to_string()));
    assert_eq!(env[1].0, "CC_i686_linux_android");
    assert_eq!(env[2], ("AR_i686_linux_android".to_string(), "/ndk/bin/llvm-ar".to_string()));
}

#[test]
fn suggestions() {
    let c = Suggestion::command("Install rustup", "curl https://sh.rustup.rs | sh");
    assert_eq!(c.message, "Install rustup");
    assert!(matches!(c.suggestion_type, SuggestionType::Command(ref x) if x == "curl https://sh.rustup.rs | sh"));
    let p = Suggestion::plain_text("Set a variable", None);
    assert!(matches!(p.suggestion_type, SuggestionType::PlainText(None)));
}
