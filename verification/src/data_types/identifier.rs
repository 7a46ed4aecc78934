//! Namespaced identifiers such as `minecraft:stone`.
use vstd::prelude::*;
use vstd::string::{StrSliceExecFns, StringExecFns};

verus! {

broadcast use vstd::string::group_string_axioms;

/// Whether `c` occurs in `s`.
pub open spec fn has_char(s: Seq<char>, c: char) -> bool {
    exists|i: int| 0 <= i < s.len() && s[i] == c
}

/// The index of the first `c` in `s`, where there is one.
pub open spec fn first_index(s: Seq<char>, c: char) -> int
    recommends
        has_char(s, c),
{
    choose|i: int| 0 <= i < s.len() && s[i] == c && forall|j: int| 0 <= j < i ==> s[j] != c
}

/// The text of the identifier made from `text`: itself where it holds a
/// colon, else `text` in the `minecraft` namespace.
pub open spec fn identifier_text(text: Seq<char>) -> Seq<char> {
    if has_char(text, ':') {
        text
    } else {
        "minecraft:"@ + text
    }
}

/// Where the name starts: just after the first colon.
pub open spec fn name_start(text: Seq<char>) -> int {
    first_index(text, ':') + 1
}

/// Finds the first `c` in `s`.
fn find_char(s: &str, c: char) -> (r: Option<usize>)
    ensures
        s@.len() <= usize::MAX,
        r matches Some(i) ==> i < s@.len() && s@[i as int] == c && forall|j: int|
            0 <= j < i ==> s@[j] != c,
        r is None ==> !has_char(s@, c),
{
    let n = s.unicode_len();
    let mut i: usize = 0;
    while i < n
        invariant
            n == s@.len(),
            i <= n,
            forall|j: int| 0 <= j < i ==> s@[j] != c,
        decreases n - i,
    {
        if s.get_char(i) == c {
            return Some(i);
        }
        i = i + 1;
    }
    None
}

proof fn lemma_first_index_props(s: Seq<char>, c: char)
    requires
        has_char(s, c),
    ensures
        0 <= first_index(s, c) < s.len(),
        s[first_index(s, c)] == c,
        forall|j: int| 0 <= j < first_index(s, c) ==> s[j] != c,
{
    let i = choose|i: int| 0 <= i < s.len() && s[i] == c;
    lemma_earliest(s, c, i);
}

proof fn lemma_earliest(s: Seq<char>, c: char, i: int)
    requires
        0 <= i < s.len(),
        s[i] == c,
    ensures
        exists|k: int| 0 <= k < s.len() && s[k] == c && forall|j: int| 0 <= j < k ==> s[j] != c,
    decreases i,
{
    if exists|j: int| 0 <= j < i && s[j] == c {
        let j = choose|j: int| 0 <= j < i && s[j] == c;
        lemma_earliest(s, c, j);
    } else {
        assert(forall|j: int| 0 <= j < i ==> s[j] != c);
    }
}

proof fn lemma_first_index(s: Seq<char>, c: char, i: int)
    requires
        0 <= i < s.len(),
        s[i] == c,
        forall|j: int| 0 <= j < i ==> s[j] != c,
    ensures
        has_char(s, c),
        first_index(s, c) == i,
{
    assert(has_char(s, c));
    let k = first_index(s, c);
    assert(0 <= k < s.len() && s[k] == c && forall|j: int| 0 <= j < k ==> s[j] != c);
    if k < i {
        assert(s[k] != c);
    }
    if i < k {
        assert(s[i] != c);
    }
}

/// A namespace and a name, written `namespace:name`.
#[derive(Debug, PartialEq, Eq, Hash)]
pub struct Identifier {
    text: String,
    name_pos: usize,
}

impl View for Identifier {
    type V = Seq<char>;

    closed spec fn view(&self) -> Seq<char> {
        self.text@
    }
}

impl core::ops::Deref for Identifier {
    type Target = str;

    /// The whole text, `namespace:name`.
    fn deref(&self) -> (r: &str)
        ensures
            r@ == self@,
    {
        self.text.as_str()
    }
}

impl Identifier {
    #[verifier::type_invariant]
    spec fn inv(self) -> bool {
        &&& has_char(self.text@, ':')
        &&& self.name_pos == name_start(self.text@)
    }

    /// The namespace: what comes before the first colon.
    pub open spec fn spec_namespace(self) -> Seq<char> {
        self@.take(name_start(self@) - 1)
    }

    /// The name: what comes after the first colon.
    pub open spec fn spec_name(self) -> Seq<char> {
        self@.skip(name_start(self@))
    }

    /// The identifier written as `text`, which must hold a colon.
    pub fn new(text: String) -> (id: Identifier)
        requires
            has_char(text@, ':'),
        ensures
            id@ == text@,
            has_char(id@, ':'),
    {
        let pos = match find_char(text.as_str(), ':') {
            Some(i) => i,
            None => 0,
        };
        proof {
            lemma_first_index(text@, ':', pos as int);
        }
        Identifier { name_pos: pos + 1, text }
    }

    /// The identifier for `text`: as it is where it holds a colon, else
    /// `text` in the `minecraft` namespace.
    pub fn from(text: &str) -> (id: Identifier)
        ensures
            id@ == identifier_text(text@),
            has_char(id@, ':'),
    {
        match find_char(text, ':') {
            Some(i) => {
                proof {
                    lemma_first_index(text@, ':', i as int);
                }
                Identifier { text: String::from_str(text), name_pos: i + 1 }
            },
            None => {
                let mut full = String::from_str("minecraft:");
                full.append(text);
                proof {
                    reveal_strlit("minecraft:");
                    lemma_first_index(full@, ':', 9);
                }
                Identifier { text: full, name_pos: 10 }
            },
        }
    }

    pub fn namespace(&self) -> (r: &str)
        ensures
            r@ == self.spec_namespace(),
    {
        proof {
            use_type_invariant(self);
            lemma_first_index_props(self.text@, ':');
        }
        self.text.as_str().substring_char(0, self.name_pos - 1)
    }

    pub fn name(&self) -> (r: &str)
        ensures
            r@ == self.spec_name(),
    {
        proof {
            use_type_invariant(self);
            lemma_first_index_props(self.text@, ':');
        }
        let n = self.text.as_str().unicode_len();
        proof {
            assert(self.text@.subrange(self.name_pos as int, self.text@.len() as int)
                =~= self.spec_name());
        }
        self.text.as_str().substring_char(self.name_pos, n)
    }

    /// The whole text.
    pub fn as_str(&self) -> (r: &str)
        ensures
            r@ == self@,
    {
        self.text.as_str()
    }

    /// The namespace, a colon and the name.
    pub fn to_string(&self) -> (r: String)
        ensures
            r@ == self.spec_namespace() + ":"@ + self.spec_name(),
            r@ == self@,
    {
        proof {
            use_type_invariant(self);
            lemma_first_index_props(self.text@, ':');
            reveal_strlit(":");
        }
        let mut r = String::from_str(self.namespace());
        r.append(":");
        r.append(self.name());
        proof {
            assert(self@ =~= self.spec_namespace() + ":"@ + self.spec_name());
        }
        r
    }
}

impl Clone for Identifier {
    fn clone(&self) -> (r: Identifier)
        ensures
            r@ == self@,
    {
        proof {
            use_type_invariant(self);
        }
        Identifier { text: self.text.clone(), name_pos: self.name_pos }
    }
}

/// An identifier's text is its namespace, a colon and its name.
pub proof fn identifier_parts(id: Identifier)
    requires
        has_char(id@, ':'),
    ensures
        id@ == id.spec_namespace() + ":"@ + id.spec_name(),
        !has_char(id.spec_namespace(), ':'),
{
    reveal_strlit(":");
    lemma_first_index_props(id@, ':');
    let k = first_index(id@, ':');
    assert(id@ =~= id.spec_namespace() + ":"@ + id.spec_name());
    assert(!has_char(id.spec_namespace(), ':')) by {
        if has_char(id.spec_namespace(), ':') {
            let j = choose|j: int| 0 <= j < id.spec_namespace().len() && id.spec_namespace()[j] == ':';
            assert(id@[j] == ':');
        }
    }
}

} // verus!
