use vstd::prelude::*;

use crate::json::Json;
use crate::json::JsonV;
use crate::json::json_view_fields;
use crate::json::lemma_json_view_fields_pointwise;
use crate::json::spec_file_json_doc;

verus! {

/// Mathematical view of a [`File`]: the three fields as character
/// sequences.
pub struct FileV {
    pub name: Seq<char>,
    pub content: Seq<char>,
    pub encoding: Seq<char>,
}

/// The view a fresh [`File`] has when nothing was supplied: no name,
/// no content, `utf8` encoding.
pub open spec fn default_file_view() -> FileV {
    FileV { name: Seq::empty(), content: Seq::empty(), encoding: "utf8"@ }
}

/// A file that contains source code to be executed.
///
/// `content` is the one field the service requires; `name` and
/// `encoding` default to empty and `"utf8"`.  A file is never mutated
/// by the library once it is handed to an executor.
#[derive(Debug)]
pub struct File {
    name: String,
    content: String,
    encoding: String,
}

impl View for File {
    type V = FileV;

    closed spec fn view(&self) -> FileV {
        FileV { name: self.name@, content: self.content@, encoding: self.encoding@ }
    }
}

impl DeepView for File {
    type V = FileV;

    open spec fn deep_view(&self) -> FileV {
        self@
    }
}

impl Default for File {
    /// An unnamed file with no content and `utf8` encoding.
    fn default() -> (r: Self)
        ensures
            r@ == default_file_view(),
    {
        File { name: String::new(), content: String::new(), encoding: String::from_str("utf8") }
    }
}

impl File {
    /// Creates a new file from a name, its content and an encoding.
    pub fn new(name: String, content: String, encoding: String) -> (r: Self)
        ensures
            r@ == (FileV { name: name@, content: content@, encoding: encoding@ }),
    {
        File { name, content, encoding }
    }

    /// The name of the file.
    pub fn name(&self) -> (r: String)
        ensures
            r@ == self@.name,
    {
        self.name.clone()
    }

    /// Sets the name of the file in place.
    pub fn name_setter(&mut self, name: String)
        ensures
            final(self)@ == (FileV { name: name@, ..old(self)@ }),
    {
        self.name = name;
    }

    /// The content of the file.
    pub fn content(&self) -> (r: String)
        ensures
            r@ == self@.content,
    {
        self.content.clone()
    }

    /// Sets the content of the file in place.
    pub fn content_setter(&mut self, content: String)
        ensures
            final(self)@ == (FileV { content: content@, ..old(self)@ }),
    {
        self.content = content;
    }

    /// The encoding of the file.
    pub fn encoding(&self) -> (r: String)
        ensures
            r@ == self@.encoding,
    {
        self.encoding.clone()
    }

    /// Sets the encoding of the file in place.
    pub fn encoding_setter(&mut self, encoding: String)
        ensures
            final(self)@ == (FileV { encoding: encoding@, ..old(self)@ }),
    {
        self.encoding = encoding;
    }

    /// Sets the name of the file, returning the file for chained
    /// calls.
    pub fn set_name(self, name: String) -> (r: Self)
        ensures
            r@ == (FileV { name: name@, ..self@ }),
    {
        File { name, ..self }
    }

    /// Sets the content of the file, returning the file for chained
    /// calls.
    pub fn set_content(self, content: String) -> (r: Self)
        ensures
            r@ == (FileV { content: content@, ..self@ }),
    {
        File { content, ..self }
    }

    /// Sets the encoding of the file, returning the file for chained
    /// calls.
    pub fn set_encoding(self, encoding: String) -> (r: Self)
        ensures
            r@ == (FileV { encoding: encoding@, ..self@ }),
    {
        File { encoding, ..self }
    }

    /// Copies the file, leaving the existing one unchanged.  The copy
    /// is a fully independent value: mutating it never touches the
    /// original.
    pub fn copy(&self) -> (r: Self)
        ensures
            r@ == self@,
    {
        File {
            name: self.name.clone(),
            content: self.content.clone(),
            encoding: self.encoding.clone(),
        }
    }

    /// The JSON document a file is sent as.
    pub(crate) fn to_json(&self) -> (d: Json)
        ensures
            d@ == spec_file_json_doc(self@),
    {
        let mut fields: Vec<(String, Json)> = Vec::new();
        fields.push((String::from_str("name"), Json::Text(self.name.clone())));
        fields.push((String::from_str("content"), Json::Text(self.content.clone())));
        fields.push((String::from_str("encoding"), Json::Text(self.encoding.clone())));
        let d = Json::Obj(fields);
        proof {
            lemma_json_view_fields_pointwise(fields@);
            assert(json_view_fields(fields@) =~= seq![
                ("name"@, JsonV::Text(self@.name)),
                ("content"@, JsonV::Text(self@.content)),
                ("encoding"@, JsonV::Text(self@.encoding)),
            ]);
            assert(d@ == spec_file_json_doc(self@));
        }
        d
    }
}

/// Mathematical view of a [`Runtime`].
pub struct RuntimeV {
    pub language: Seq<char>,
    pub version: Seq<char>,
    pub aliases: Seq<Seq<char>>,
}

/// A runtime available on the remote service: a language, the version
/// of it that the service runs, and the aliases the language is known
/// under.
///
/// Runtimes are produced by [`crate::Client`]'s discovery call; a
/// caller may build one by hand for bookkeeping, but doing so carries
/// no effect on the service.
#[derive(Debug)]
pub struct Runtime {
    language: String,
    version: String,
    aliases: Vec<String>,
}

impl View for Runtime {
    type V = RuntimeV;

    closed spec fn view(&self) -> RuntimeV {
        RuntimeV {
            language: self.language@,
            version: self.version@,
            aliases: self.aliases.deep_view(),
        }
    }
}

impl DeepView for Runtime {
    type V = RuntimeV;

    open spec fn deep_view(&self) -> RuntimeV {
        self@
    }
}

impl Runtime {
    /// Creates a new runtime descriptor.
    pub fn new(language: String, version: String, aliases: Vec<String>) -> (r: Self)
        ensures
            r@ == (RuntimeV {
                language: language@,
                version: version@,
                aliases: aliases.deep_view(),
            }),
    {
        Runtime { language, version, aliases }
    }

    /// The language.
    pub fn language(&self) -> (r: String)
        ensures
            r@ == self@.language,
    {
        self.language.clone()
    }

    /// The version of the language.
    pub fn version(&self) -> (r: String)
        ensures
            r@ == self@.version,
    {
        self.version.clone()
    }

    /// The aliases of the language.
    pub fn aliases(&self) -> (r: Vec<String>)
        ensures
            r.deep_view() == self@.aliases,
    {
        clone_string_vec(&self.aliases)
    }

    /// Copies the runtime, leaving the existing one unchanged.
    pub fn copy(&self) -> (r: Self)
        ensures
            r@ == self@,
    {
        Runtime {
            language: self.language.clone(),
            version: self.version.clone(),
            aliases: clone_string_vec(&self.aliases),
        }
    }
}

/// Clones a vector of strings element by element, so that the result
/// is known to hold the same character sequences.
pub(crate) fn clone_string_vec(v: &Vec<String>) -> (r: Vec<String>)
    ensures
        r.deep_view() == v.deep_view(),
{
    let mut out: Vec<String> = Vec::new();
    let n = v.len();
    let mut i: usize = 0;
    while i < n
        invariant
            i <= n,
            n == v.len(),
            out.len() == i,
            forall|j: int| 0 <= j < i ==> out.deep_view()[j] == v.deep_view()[j],
        decreases n - i,
    {
        out.push(v[i].clone());
        i = i + 1;
    }
    assert(out.deep_view() =~= v.deep_view());
    out
}

} // verus!
