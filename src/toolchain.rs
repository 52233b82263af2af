use vstd::prelude::*;
use vstd::string::StringExecFns;

use crate::text::{decimal, decimal_text};

verus! {

/// The lowest Android SDK level the native libraries are built for.
pub const MIN_SDK_VERSION: u8 = 23;

/// An Android ABI.
#[derive(PartialEq, Eq, Structural)]
pub enum Abi {
    Arm64V8a,
    ArmeAbiV7a,
    X86_64,
    X86,
}

/// An iOS build identifier.
#[derive(PartialEq, Eq, Structural)]
pub enum Identifier {
    /// For device
    Arm64,
    /// For simulator (arm64)
    Arm64Simulator,
    /// For simulator (x86_64)
    X86_64Simulator,
    /// The combined simulator slice of an XCFramework
    Simulator,
}

/// A build target.
#[derive(PartialEq, Eq, Structural)]
pub enum Target {
    Android(Abi),
    Ios(Identifier),
}

#[derive(Debug, PartialEq, Eq, Structural)]
pub enum ToolchainError {
    /// The identifier names no XCFramework slice.
    InvalidIdentifier,
}

pub open spec fn abi_triple(abi: Abi) -> Seq<char> {
    match abi {
        Abi::Arm64V8a => "aarch64-linux-android"@,
        Abi::ArmeAbiV7a => "armv7-linux-androideabi"@,
        Abi::X86_64 => "x86_64-linux-android"@,
        Abi::X86 => "i686-linux-android"@,
    }
}

pub open spec fn clang_prefix(abi: Abi) -> Seq<char> {
    match abi {
        Abi::Arm64V8a => "aarch64-linux-android"@,
        Abi::ArmeAbiV7a => "armv7a-linux-androideabi"@,
        Abi::X86_64 => "x86_64-linux-android"@,
        Abi::X86 => "i686-linux-android"@,
    }
}

pub open spec fn env_suffix(abi: Abi) -> Seq<char> {
    match abi {
        Abi::Arm64V8a => "aarch64_linux_android"@,
        Abi::ArmeAbiV7a => "armv7_linux_androideabi"@,
        Abi::X86_64 => "x86_64_linux_android"@,
        Abi::X86 => "i686_linux_android"@,
    }
}

/// The clang driver of an ABI at the minimum SDK level.
pub open spec fn clang_name(abi: Abi, cxx: bool) -> Seq<char> {
    clang_prefix(abi) + decimal(MIN_SDK_VERSION as nat) + if cxx { "-clang++"@ } else { "-clang"@ }
}

impl Target {
    /// The Rust target triple; the combined simulator slice has none.
    pub fn to_str(&self) -> (r: &'static str)
        requires
            !(*self matches Target::Ios(Identifier::Simulator)),
        ensures
            r@ == match *self {
                Target::Android(abi) => abi_triple(abi),
                Target::Ios(Identifier::Arm64) => "aarch64-apple-ios"@,
                Target::Ios(Identifier::Arm64Simulator) => "aarch64-apple-ios-sim"@,
                _ => "x86_64-apple-ios"@,
            },
    {
        match self {
            Target::Android(abi) => match abi {
                Abi::Arm64V8a => "aarch64-linux-android",
                Abi::ArmeAbiV7a => "armv7-linux-androideabi",
                Abi::X86_64 => "x86_64-linux-android",
                Abi::X86 => "i686-linux-android",
            },
            Target::Ios(identifier) => match identifier {
                Identifier::Arm64 => "aarch64-apple-ios",
                Identifier::Arm64Simulator => "aarch64-apple-ios-sim",
                _ => "x86_64-apple-ios",
            },
        }
    }
}

impl Abi {
    /// The ABI's directory name.
    pub fn to_str(&self) -> (r: &'static str)
        ensures
            r@ == match *self {
                Abi::Arm64V8a => "arm64-v8a"@,
                Abi::ArmeAbiV7a => "armeabi-v7a"@,
                Abi::X86_64 => "x86_64"@,
                Abi::X86 => "x86"@,
            },
    {
        match self {
            Abi::Arm64V8a => "arm64-v8a",
            Abi::ArmeAbiV7a => "armeabi-v7a",
            Abi::X86_64 => "x86_64",
            Abi::X86 => "x86",
        }
    }

    /// The file name of the ABI's clang (`cxx`: clang++) driver.
    pub fn to_clang_name(&self, cxx: bool) -> (r: String)
        ensures
            r@ == clang_name(*self, cxx),
    {
        let prefix = match self {
            Abi::Arm64V8a => "aarch64-linux-android",
            Abi::ArmeAbiV7a => "armv7a-linux-androideabi",
            Abi::X86_64 => "x86_64-linux-android",
            Abi::X86 => "i686-linux-android",
        };
        let level = decimal_text(MIN_SDK_VERSION as usize);
        let name = String::from_str(prefix).concat(level.as_str());
        if cxx {
            name.concat("-clang++")
        } else {
            name.concat("-clang")
        }
    }

    /// The environment the C toolchain of this ABI is selected by, given the
    /// NDK's binary directory: the C++ compiler, the C compiler and the archiver.
    pub fn to_env(&self, ndk_bin_path: &String) -> (r: Vec<(String, String)>)
        ensures
            r@.len() == 3,
            r@[0].0@ == "CXX_"@ + env_suffix(*self) && r@[0].1@ == ndk_bin_path@ + "/"@ + clang_name(*self, true),
            r@[1].0@ == "CC_"@ + env_suffix(*self) && r@[1].1@ == ndk_bin_path@ + "/"@ + clang_name(*self, false),
            r@[2].0@ == "AR_"@ + env_suffix(*self) && r@[2].1@ == ndk_bin_path@ + "/llvm-ar"@,
    {
        let suffix = match self {
            Abi::Arm64V8a => "aarch64_linux_android",
            Abi::ArmeAbiV7a => "armv7_linux_androideabi",
            Abi::X86_64 => "x86_64_linux_android",
            Abi::X86 => "i686_linux_android",
        };
        let mut envs: Vec<(String, String)> = Vec::new();
        envs.push((String::from_str("CXX_").concat(suffix), get_ndk_clang_path(self, true, ndk_bin_path)));
        envs.push((String::from_str("CC_").concat(suffix), get_ndk_clang_path(self, false, ndk_bin_path)));
        envs.push((String::from_str("AR_").concat(suffix), get_ndk_llvm_ar_path(ndk_bin_path)));
        envs
    }
}

impl Identifier {
    /// The XCFramework slice of the identifier.
    pub fn try_into_str(&self) -> (r: Result<&'static str, ToolchainError>)
        ensures
            match *self {
                Identifier::Arm64 => r is Ok && r->Ok_0@ == "ios-arm64"@,
                Identifier::Simulator => r is Ok && r->Ok_0@ == "ios-arm64_x86_64-simulator"@,
                _ => r == Err::<&'static str, ToolchainError>(ToolchainError::InvalidIdentifier),
            },
    {
        match self {
            Identifier::Arm64 => Ok("ios-arm64"),
            Identifier::Simulator => Ok("ios-arm64_x86_64-simulator"),
            _ => Err(ToolchainError::InvalidIdentifier),
        }
    }
}

/// The path of the ABI's clang driver in the NDK's binary directory.
pub fn get_ndk_clang_path(abi: &Abi, cxx: bool, ndk_bin_path: &String) -> (r: String)
    ensures
        r@ == ndk_bin_path@ + "/"@ + clang_name(*abi, cxx),
{
    let name = abi.to_clang_name(cxx);
    ndk_bin_path.clone().concat("/").concat(name.as_str())
}

/// The path of the archiver in the NDK's binary directory.
pub fn get_ndk_llvm_ar_path(ndk_bin_path: &String) -> (r: String)
    ensures
        r@ == ndk_bin_path@ + "/llvm-ar"@,
{
    ndk_bin_path.clone().concat("/llvm-ar")
}

} // verus!
