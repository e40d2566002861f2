//! The closed set of HTTP methods and the classification of verb tokens.

use vstd::prelude::*;
use crate::text::same_text;

verus! {

/// An HTTP method that an operation can be bound to, or the mark of a token
/// that names none.
#[derive(Clone, Copy, Debug, PartialEq, Eq, Structural)]
pub enum HttpMethod {
    Get,
    Post,
    Put,
    Patch,
    Delete,
    Unsupported,
}

/// The method that a verb token names. The match is exact and case-sensitive.
pub open spec fn classified(token: Seq<char>) -> HttpMethod {
    if token == "get"@ {
        HttpMethod::Get
    } else if token == "post"@ {
        HttpMethod::Post
    } else if token == "put"@ {
        HttpMethod::Put
    } else if token == "patch"@ {
        HttpMethod::Patch
    } else if token == "delete"@ {
        HttpMethod::Delete
    } else {
        HttpMethod::Unsupported
    }
}

impl HttpMethod {
    /// The method is one of the five supported ones.
    pub open spec fn supported(self) -> bool {
        self != HttpMethod::Unsupported
    }

    /// The method sends a body: post, put and patch do.
    pub open spec fn carries_body(self) -> bool {
        self == HttpMethod::Post || self == HttpMethod::Put || self == HttpMethod::Patch
    }

    /// Tests whether the method is one of the five supported ones.
    pub fn is_supported(&self) -> (yes: bool)
        ensures
            yes == self.supported(),
    {
        !matches!(self, HttpMethod::Unsupported)
    }

    /// Tests whether the method sends a body.
    pub fn has_body(&self) -> (yes: bool)
        ensures
            yes == self.carries_body(),
    {
        matches!(self, HttpMethod::Post | HttpMethod::Put | HttpMethod::Patch)
    }

    /// The lower-case token of a supported method; empty for `Unsupported`.
    pub fn token(&self) -> (name: &'static str)
        ensures
            self.supported() ==> classified(name@) == *self,
            !self.supported() ==> name@ == ""@,
    {
        proof {
            lemma_tokens();
        }
        match self {
            HttpMethod::Get => "get",
            HttpMethod::Post => "post",
            HttpMethod::Put => "put",
            HttpMethod::Patch => "patch",
            HttpMethod::Delete => "delete",
            HttpMethod::Unsupported => "",
        }
    }
}

/// Classifies a verb token: `get`, `post`, `put`, `patch` and `delete` name
/// their methods, every other token is unsupported.
pub fn classify(token: &str) -> (method: HttpMethod)
    ensures
        method == classified(token@),
{
    if same_text(token, "get") {
        HttpMethod::Get
    } else if same_text(token, "post") {
        HttpMethod::Post
    } else if same_text(token, "put") {
        HttpMethod::Put
    } else if same_text(token, "patch") {
        HttpMethod::Patch
    } else if same_text(token, "delete") {
        HttpMethod::Delete
    } else {
        HttpMethod::Unsupported
    }
}

impl From<&str> for HttpMethod {
    /// Classifies a verb token, as `classify` does.
    fn from(s: &str) -> (method: HttpMethod) {
        classify(s)
    }
}

impl vstd::std_specs::convert::FromSpecImpl<&str> for HttpMethod {
    open spec fn obeys_from_spec() -> bool {
        true
    }

    open spec fn from_spec(s: &str) -> HttpMethod {
        classified(s@)
    }
}

/// Each of the five tokens names its own method, and a token names a
/// supported method only if it is one of the five.
pub proof fn lemma_tokens()
    ensures
        classified("get"@) == HttpMethod::Get,
        classified("post"@) == HttpMethod::Post,
        classified("put"@) == HttpMethod::Put,
        classified("patch"@) == HttpMethod::Patch,
        classified("delete"@) == HttpMethod::Delete,
        forall|token: Seq<char>| #[trigger]
            classified(token).supported() <==> (token == "get"@ || token == "post"@ || token
                == "put"@ || token == "patch"@ || token == "delete"@),
{
    reveal_strlit("get");
    reveal_strlit("post");
    reveal_strlit("put");
    reveal_strlit("patch");
    reveal_strlit("delete");
    assert("get"@.len() == 3 && "get"@[0] == 'g');
    assert("post"@.len() == 4 && "post"@[1] == 'o');
    assert("put"@.len() == 3 && "put"@[0] == 'p');
    assert("patch"@.len() == 5);
    assert("delete"@.len() == 6);
}

} // verus!
