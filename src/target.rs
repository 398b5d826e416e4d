use vstd::prelude::*;

use crate::text::{contains_text, occurs_in, same_text};

verus! {

/// What a browser reports about the machine it runs on.
pub struct PostData {
    pub os: String,
    pub os_version: String,
    pub user_agent: String,
}

/// The target triple guessed for a client.
pub struct ResponseData {
    pub target_triple: String,
}

/// The message of a client whose operating system is not recognised.
pub open spec fn unknown_os_message() -> Seq<char> {
    "Sorry! We failed to compute target triple for your pc!"@
}

/// The architecture part of the triple: 64-bit x86 when the user agent says
/// so or the system is macOS, 32-bit x86 otherwise.
pub open spec fn architecture_of(os: Seq<char>, user_agent: Seq<char>) -> Seq<char> {
    if occurs_in("x64"@, user_agent) || occurs_in("x86_64"@, user_agent) || os == "Mac OS X"@ {
        "x86_64"@
    } else {
        "i686"@
    }
}

/// The rest of the triple, by operating system; `None` for one that is not
/// recognised.
pub open spec fn platform_of(os: Seq<char>) -> Option<Seq<char>> {
    if os == "Mac OS X"@ {
        Some("-apple-darwin"@)
    } else if os == "Windows"@ {
        Some("-pc-windows-gnu"@)
    } else if os == "Linux"@ {
        Some("-unknown-linux-gnu"@)
    } else {
        None
    }
}

/// The target triple for a client, if its operating system is recognised.
pub open spec fn triple_for(os: Seq<char>, user_agent: Seq<char>) -> Option<Seq<char>> {
    match platform_of(os) {
        Some(rest) => Some(architecture_of(os, user_agent) + rest),
        None => None,
    }
}

/// Guesses the target triple of a client from what its browser reports.
/// An operating system other than macOS, Windows or Linux is refused.
pub fn get_target(json: &PostData) -> (r: Result<ResponseData, String>)
    ensures
        match triple_for(json.os@, json.user_agent@) {
            Some(t) => r is Ok && r->Ok_0.target_triple@ == t,
            None => r is Err && r->Err_0@ == unknown_os_message(),
        },
{
    let is_mac = same_text(json.os.as_str(), "Mac OS X");
    let wide = contains_text(json.user_agent.as_str(), "x64") || contains_text(
        json.user_agent.as_str(),
        "x86_64",
    ) || is_mac;
    let mut triple = if wide {
        String::from_str("x86_64")
    } else {
        String::from_str("i686")
    };
    proof {
        reveal_strlit("x86_64");
        reveal_strlit("i686");
        reveal_strlit("Mac OS X");
        reveal_strlit("Windows");
        reveal_strlit("Linux");
        reveal_strlit("-apple-darwin");
        reveal_strlit("-pc-windows-gnu");
        reveal_strlit("-unknown-linux-gnu");
        reveal_strlit("Sorry! We failed to compute target triple for your pc!");
    }
    assert(triple@ == architecture_of(json.os@, json.user_agent@));
    if is_mac {
        triple.append("-apple-darwin");
    } else if same_text(json.os.as_str(), "Windows") {
        triple.append("-pc-windows-gnu");
    } else if same_text(json.os.as_str(), "Linux") {
        triple.append("-unknown-linux-gnu");
    } else {
        return Err(String::from_str("Sorry! We failed to compute target triple for your pc!"));
    }
    Ok(ResponseData { target_triple: triple })
}

} // verus!
