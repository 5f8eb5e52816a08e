use vstd::prelude::*;

verus! {

/// The HTTP methods that Rata can send.
#[derive(Debug, Clone, Copy, PartialEq, Eq, Structural)]
pub enum HttpMethod {
    Get,
    Post,
    Put,
    Patch,
    Delete,
}

/// The short label shown for a method.
pub open spec fn label_spec(m: HttpMethod) -> Seq<char> {
    match m {
        HttpMethod::Get => seq!['G', 'E', 'T'],
        HttpMethod::Post => seq!['P', 'O', 'S', 'T'],
        HttpMethod::Put => seq!['P', 'U', 'T'],
        HttpMethod::Patch => seq!['P', 'A', 'T', 'C', 'H'],
        HttpMethod::Delete => seq!['D', 'E', 'L'],
    }
}

/// The directory name under which the examples of a method are stored.
pub open spec fn directory_spec(m: HttpMethod) -> Seq<char> {
    match m {
        HttpMethod::Get => seq!['g', 'e', 't'],
        HttpMethod::Post => seq!['p', 'o', 's', 't'],
        HttpMethod::Put => seq!['p', 'u', 't'],
        HttpMethod::Patch => seq!['p', 'a', 't', 'c', 'h'],
        HttpMethod::Delete => seq!['d', 'e', 'l', 'e', 't', 'e'],
    }
}

/// ASCII upper case of one character; other characters are kept.
pub open spec fn ascii_upper(c: char) -> char {
    if 'a' <= c && c <= 'z' {
        ((c as u32) - 32) as char
    } else {
        c
    }
}

/// ASCII upper case of a text.
pub open spec fn ascii_upper_seq(s: Seq<char>) -> Seq<char> {
    s.map_values(|c: char| ascii_upper(c))
}

/// The method a text names, compared without regard to ASCII case;
/// "DEL" is accepted for DELETE.
pub open spec fn parse_method_spec(s: Seq<char>) -> Option<HttpMethod> {
    let u = ascii_upper_seq(s);
    if u == seq!['G', 'E', 'T'] {
        Some(HttpMethod::Get)
    } else if u == seq!['P', 'O', 'S', 'T'] {
        Some(HttpMethod::Post)
    } else if u == seq!['P', 'U', 'T'] {
        Some(HttpMethod::Put)
    } else if u == seq!['P', 'A', 'T', 'C', 'H'] {
        Some(HttpMethod::Patch)
    } else if u == seq!['D', 'E', 'L', 'E', 'T', 'E'] || u == seq!['D', 'E', 'L'] {
        Some(HttpMethod::Delete)
    } else {
        None
    }
}

/// A method name that Rata does not support; `value` is the name in ASCII upper case.
#[derive(Debug, Clone, PartialEq, Eq)]
pub struct UnsupportedMethod {
    pub value: String,
}

impl UnsupportedMethod {
    /// The message shown for the error.
    pub fn message(&self) -> (r: String)
        ensures
            r@ == "unsupported HTTP method: "@ + self.value@,
    {
        let mut m = String::from_str("unsupported HTTP method: ");
        m.append(self.value.as_str());
        m
    }
}

/// Every method, in the order the method menu lists them.
pub open spec fn methods_spec() -> Seq<HttpMethod> {
    seq![HttpMethod::Get, HttpMethod::Post, HttpMethod::Put, HttpMethod::Patch, HttpMethod::Delete]
}

/// Every method, in the order the method menu lists them.
pub fn all_methods() -> (r: Vec<HttpMethod>)
    ensures
        r@ == methods_spec(),
{
    let r = vec![HttpMethod::Get, HttpMethod::Post, HttpMethod::Put, HttpMethod::Patch, HttpMethod::Delete];
    assert(r@ =~= methods_spec());
    r
}

fn upper_char(c: char) -> (r: char)
    ensures
        r == ascii_upper(c),
{
    if 'a' <= c && c <= 'z' {
        let b = c as u8;
        ((b - 32) as char)
    } else {
        c
    }
}

fn seq_eq(a: &[char], b: &str) -> (r: bool)
    ensures
        r == (a@ == b@),
{
    let bv = crate::text::chars_of(b);
    if a.len() != bv.len() {
        return false;
    }
    let mut i: usize = 0;
    while i < a.len()
        invariant
            a@.len() == bv@.len(),
            bv@ == b@,
            i <= a.len(),
            forall|k: int| 0 <= k < i ==> a@[k] == bv@[k],
        decreases a.len() - i,
    {
        if a[i] != bv[i] {
            return false;
        }
        i += 1;
    }
    assert(a@ =~= bv@);
    true
}

impl HttpMethod {
    /// The name under which examples of this method are stored.
    pub fn directory(self) -> (r: &'static str)
        ensures
            r@ == directory_spec(self),
    {
        proof {
            reveal_strlit("get");
            reveal_strlit("post");
            reveal_strlit("put");
            reveal_strlit("patch");
            reveal_strlit("delete");
        }
        match self {
            HttpMethod::Get => "get",
            HttpMethod::Post => "post",
            HttpMethod::Put => "put",
            HttpMethod::Patch => "patch",
            HttpMethod::Delete => "delete",
        }
    }

    /// Reads a method name without regard to ASCII case ("DEL" names DELETE).
    pub fn parse(value: &str) -> (r: Result<HttpMethod, UnsupportedMethod>)
        ensures
            match r {
                Ok(m) => parse_method_spec(value@) == Some(m),
                Err(e) => parse_method_spec(value@) is None && e.value@ == ascii_upper_seq(value@),
            },
    {
        let chars = crate::text::chars_of(value);
        let mut up: Vec<char> = Vec::new();
        let mut i: usize = 0;
        while i < chars.len()
            invariant
                i <= chars.len(),
                chars@ == value@,
                up@ == ascii_upper_seq(chars@.take(i as int)),
            decreases chars.len() - i,
        {
            up.push(upper_char(chars[i]));
            assert(ascii_upper_seq(chars@.take(i + 1)) =~= ascii_upper_seq(chars@.take(i as int)).push(ascii_upper(chars@[i as int])));
            i += 1;
        }
        assert(chars@.take(chars.len() as int) == chars@);
        proof {
            reveal_strlit("GET");
            reveal_strlit("POST");
            reveal_strlit("PUT");
            reveal_strlit("PATCH");
            reveal_strlit("DELETE");
            reveal_strlit("DEL");
            assert("GET"@ =~= seq!['G', 'E', 'T']);
            assert("POST"@ =~= seq!['P', 'O', 'S', 'T']);
            assert("PUT"@ =~= seq!['P', 'U', 'T']);
            assert("PATCH"@ =~= seq!['P', 'A', 'T', 'C', 'H']);
            assert("DELETE"@ =~= seq!['D', 'E', 'L', 'E', 'T', 'E']);
            assert("DEL"@ =~= seq!['D', 'E', 'L']);
        }
        if seq_eq(&up, "GET") {
            Ok(HttpMethod::Get)
        } else if seq_eq(&up, "POST") {
            Ok(HttpMethod::Post)
        } else if seq_eq(&up, "PUT") {
            Ok(HttpMethod::Put)
        } else if seq_eq(&up, "PATCH") {
            Ok(HttpMethod::Patch)
        } else if seq_eq(&up, "DELETE") || seq_eq(&up, "DEL") {
            Ok(HttpMethod::Delete)
        } else {
            Err(UnsupportedMethod { value: crate::text::string_of(&up) })
        }
    }

    /// The short label shown for the method ("DEL" for DELETE).
    pub fn label(self) -> (r: &'static str)
        ensures
            r@ == label_spec(self),
    {
        proof {
            reveal_strlit("GET");
            reveal_strlit("POST");
            reveal_strlit("PUT");
            reveal_strlit("PATCH");
            reveal_strlit("DEL");
        }
        match self {
            HttpMethod::Get => "GET",
            HttpMethod::Post => "POST",
            HttpMethod::Put => "PUT",
            HttpMethod::Patch => "PATCH",
            HttpMethod::Delete => "DEL",
        }
    }
}


impl std::str::FromStr for HttpMethod {
    type Err = UnsupportedMethod;

    fn from_str(value: &str) -> (r: Result<HttpMethod, UnsupportedMethod>)
        ensures
            match r {
                Ok(m) => parse_method_spec(value@) == Some(m),
                Err(e) => parse_method_spec(value@) is None && e.value@ == ascii_upper_seq(value@),
            },
    {
        HttpMethod::parse(value)
    }
}

/// The colour a method is shown in, as red, green and blue: GET green, POST yellow, PUT
/// and PATCH blue, DELETE red.
pub open spec fn method_color_spec(m: HttpMethod) -> (u8, u8, u8) {
    match m {
        HttpMethod::Get => (47, 209, 124),
        HttpMethod::Post => (245, 184, 75),
        HttpMethod::Put => (96, 165, 250),
        HttpMethod::Patch => (96, 165, 250),
        HttpMethod::Delete => (255, 123, 114),
    }
}

/// The colour a method is shown in (see `method_color_spec`).
pub fn method_color(m: HttpMethod) -> (r: (u8, u8, u8))
    ensures
        r == method_color_spec(m),
{
    match m {
        HttpMethod::Get => (47, 209, 124),
        HttpMethod::Post => (245, 184, 75),
        HttpMethod::Put => (96, 165, 250),
        HttpMethod::Patch => (96, 165, 250),
        HttpMethod::Delete => (255, 123, 114),
    }
}

} // verus!
