//! The request template: the one request that a run sends again and again.

use vstd::prelude::*;
use vstd::string::StrSliceExecFns;
use vstd::string::StringSliceAdditionalSpecFns;
use crate::error::ConfigError;
use crate::http_syntax::accept_item_parses;
use crate::http_syntax::inspect_accept_item;
use crate::http_syntax::inspect_uri;
use crate::http_syntax::uri_form;

verus! {

/// Whether two texts are the same.
fn same_text(a: &str, b: &str) -> (same: bool)
    ensures
        same == (a@ == b@),
{
    let x = a.to_owned();
    let y = b.to_owned();
    x == y
}

/// The request methods that a template can have.
#[derive(Clone, Copy, Debug, PartialEq, Eq, Structural)]
pub enum Method {
    Get,
    Post,
    Put,
    Delete,
    Head,
    Options,
}

impl Method {
    /// The method that a name stands for. Names are in upper case.
    pub open spec fn named(name: Seq<char>) -> Option<Method> {
        if name == "GET"@ {
            Some(Method::Get)
        } else if name == "POST"@ {
            Some(Method::Post)
        } else if name == "PUT"@ {
            Some(Method::Put)
        } else if name == "DELETE"@ {
            Some(Method::Delete)
        } else if name == "HEAD"@ {
            Some(Method::Head)
        } else if name == "OPTIONS"@ {
            Some(Method::Options)
        } else {
            None
        }
    }

    /// The method where its name may be missing: GET without a name.
    pub open spec fn named_or_get(name: Option<&str>) -> Option<Method> {
        match name {
            None => Some(Method::Get),
            Some(n) => Method::named(n@),
        }
    }

    /// Reads a method from its name.
    pub fn parse(name: &str) -> (r: Result<Method, ConfigError>)
        ensures
            match r {
                Ok(m) => Method::named(name@) == Some(m),
                Err(e) => e == ConfigError::UnsupportedMethod && Method::named(name@) is None,
            },
    {
        if same_text(name, "GET") {
            Ok(Method::Get)
        } else if same_text(name, "POST") {
            Ok(Method::Post)
        } else if same_text(name, "PUT") {
            Ok(Method::Put)
        } else if same_text(name, "DELETE") {
            Ok(Method::Delete)
        } else if same_text(name, "HEAD") {
            Ok(Method::Head)
        } else if same_text(name, "OPTIONS") {
            Ok(Method::Options)
        } else {
            Err(ConfigError::UnsupportedMethod)
        }
    }

    /// The name of the method.
    pub open spec fn text(self) -> Seq<char> {
        match self {
            Method::Get => "GET"@,
            Method::Post => "POST"@,
            Method::Put => "PUT"@,
            Method::Delete => "DELETE"@,
            Method::Head => "HEAD"@,
            Method::Options => "OPTIONS"@,
        }
    }

    /// The name of the method.
    pub fn name(&self) -> (name: &'static str)
        ensures
            name@ == self.text(),
    {
        match self {
            Method::Get => "GET",
            Method::Post => "POST",
            Method::Put => "PUT",
            Method::Delete => "DELETE",
            Method::Head => "HEAD",
            Method::Options => "OPTIONS",
        }
    }
}

/// Whether `index` is the place of the one and only colon of a text.
pub open spec fn is_only_colon(text: Seq<char>, index: int) -> bool {
    &&& 0 <= index < text.len()
    &&& forall|j: int| 0 <= j < text.len() ==> (#[trigger] text[j] == ':' <==> j == index)
}

/// The user name and the password that a text of the form
/// `username:password` holds. A text without a colon, or with more than
/// one, holds none.
pub open spec fn credentials_in(text: Seq<char>) -> Option<(Seq<char>, Seq<char>)> {
    if exists|i: int| is_only_colon(text, i) {
        let i = choose|i: int| is_only_colon(text, i);
        Some((text.take(i), text.skip(i + 1)))
    } else {
        None
    }
}

/// A user name and a password for HTTP Basic authentication.
#[derive(Clone, Debug, PartialEq, Eq)]
pub struct Credentials {
    pub username: String,
    pub password: String,
}

impl View for Credentials {
    type V = (Seq<char>, Seq<char>);

    open spec fn view(&self) -> (Seq<char>, Seq<char>) {
        (self.username@, self.password@)
    }
}

impl Credentials {
    /// Splits a text of the form `username:password` at its colon.
    pub fn parse(text: &str) -> (r: Result<Credentials, ConfigError>)
        ensures
            match r {
                Ok(c) => credentials_in(text@) == Some(c@),
                Err(e) => e == ConfigError::MalformedCredentials && credentials_in(text@) is None,
            },
    {
        let len: usize = text.unicode_len();
        let mut colon: Option<usize> = None;
        let mut i: usize = 0;
        while i < len
            invariant
                i <= len,
                len == text@.len(),
                match colon {
                    None => forall|j: int| 0 <= j < i ==> text@[j] != ':',
                    Some(c) => c < i && forall|j: int|
                        0 <= j < i ==> (#[trigger] text@[j] == ':' <==> j == c),
                },
            decreases len - i,
        {
            if text.get_char(i) == ':' {
                match colon {
                    None => {
                        colon = Some(i);
                    },
                    Some(c) => {
                        proof {
                            assert forall|k: int| !is_only_colon(text@, k) by {
                                if is_only_colon(text@, k) {
                                    assert(text@[c as int] == ':');
                                    assert(text@[i as int] == ':');
                                }
                            }
                        }
                        return Err(ConfigError::MalformedCredentials);
                    },
                }
            }
            i = i + 1;
        }
        match colon {
            None => {
                proof {
                    assert forall|k: int| !is_only_colon(text@, k) by {
                        if is_only_colon(text@, k) {
                            assert(text@[k] == ':');
                        }
                    }
                }
                Err(ConfigError::MalformedCredentials)
            },
            Some(c) => {
                let username = text.substring_char(0, c).to_owned();
                let password = text.substring_char(c + 1, len).to_owned();
                proof {
                    assert(is_only_colon(text@, c as int));
                    let chosen = choose|k: int| is_only_colon(text@, k);
                    assert(is_only_colon(text@, chosen));
                    assert(text@[chosen] == ':');
                    assert(chosen == c);
                    assert(text@.take(c as int) =~= text@.subrange(0, c as int));
                    assert(text@.skip(c + 1) =~= text@.subrange(c + 1, len as int));
                }
                Ok(Credentials { username, password })
            },
        }
    }
}

/// Whether `index` is the place of the first colon of a text.
pub open spec fn is_first_colon(text: Seq<char>, index: int) -> bool {
    &&& 0 <= index < text.len()
    &&& text[index] == ':'
    &&& forall|j: int| 0 <= j < index ==> text[j] != ':'
}

/// A text without the blanks at its beginning.
pub open spec fn without_leading_blanks(text: Seq<char>) -> Seq<char>
    decreases text.len(),
{
    if text.len() > 0 && text[0] == ' ' {
        without_leading_blanks(text.drop_first())
    } else {
        text
    }
}

/// The name and the value that a header line of the form `Name: value`
/// holds: the name is what stands before the first colon, the value what
/// stands after it, without the blanks that it begins with. A line without a
/// colon, or with nothing before it, holds none.
pub open spec fn header_in(line: Seq<char>) -> Option<(Seq<char>, Seq<char>)> {
    if exists|i: int| is_first_colon(line, i) {
        let i = choose|i: int| is_first_colon(line, i);
        if i == 0 {
            None
        } else {
            Some((line.take(i), without_leading_blanks(line.skip(i + 1))))
        }
    } else {
        None
    }
}

/// Splits a header line of the form `Name: value` into name and value.
pub fn split_header_line(line: &str) -> (r: Result<(String, String), ConfigError>)
    ensures
        match r {
            Ok(field) => header_in(line@) == Some((field.0@, field.1@)),
            Err(e) => e == ConfigError::MalformedHeader && header_in(line@) is None,
        },
{
    let len: usize = line.unicode_len();
    let mut i: usize = 0;
    while i < len && line.get_char(i) != ':'
        invariant
            i <= len,
            len == line@.len(),
            forall|j: int| 0 <= j < i ==> line@[j] != ':',
        decreases len - i,
    {
        i = i + 1;
    }
    if i == len {
        proof {
            assert forall|k: int| !is_first_colon(line@, k) by {}
        }
        return Err(ConfigError::MalformedHeader);
    }
    proof {
        assert(is_first_colon(line@, i as int));
        let chosen = choose|k: int| is_first_colon(line@, k);
        assert(is_first_colon(line@, chosen));
        assert(chosen == i);
    }
    if i == 0 {
        return Err(ConfigError::MalformedHeader);
    }
    let mut j: usize = i + 1;
    while j < len && line.get_char(j) == ' '
        invariant
            i < j <= len,
            len == line@.len(),
            without_leading_blanks(line@.skip(i + 1)) == without_leading_blanks(
                line@.skip(j as int),
            ),
        decreases len - j,
    {
        assert(line@.skip(j as int).drop_first() =~= line@.skip(j + 1));
        j = j + 1;
    }
    let name = line.substring_char(0, i).to_owned();
    let value = line.substring_char(j, len).to_owned();
    proof {
        assert(line@.take(i as int) =~= line@.subrange(0, i as int));
        assert(line@.skip(j as int) =~= line@.subrange(j as int, len as int));
        assert(without_leading_blanks(line@.skip(j as int)) == line@.skip(j as int));
    }
    Ok((name, value))
}

/// What a target is worth as the URI of a template, given what the URI
/// parser made of it.
pub open spec fn target_verdict(form: Option<bool>) -> Result<(), ConfigError> {
    match form {
        None => Err(ConfigError::MalformedUri),
        Some(false) => Err(ConfigError::RelativeUri),
        Some(true) => Ok(()),
    }
}

/// Judges a target by what the URI parser made of it: a text that the
/// parser turned down is malformed, a URI without a scheme is relative, and
/// only a URI in absolute form will do.
pub fn judge_target(form: Option<bool>) -> (r: Result<(), ConfigError>)
    ensures
        r == target_verdict(form),
{
    match form {
        None => Err(ConfigError::MalformedUri),
        Some(false) => Err(ConfigError::RelativeUri),
        Some(true) => Ok(()),
    }
}

/// What an Accept value is worth, given whether the parser accepted it.
pub open spec fn accept_verdict(accepted: bool) -> Result<(), ConfigError> {
    if accepted {
        Ok(())
    } else {
        Err(ConfigError::MalformedAccept)
    }
}

/// Judges an Accept value by whether the parser accepted it.
pub fn judge_accept(accepted: bool) -> (r: Result<(), ConfigError>)
    ensures
        r == accept_verdict(accepted),
{
    if accepted {
        Ok(())
    } else {
        Err(ConfigError::MalformedAccept)
    }
}

/// The texts of a list of header fields.
pub open spec fn fields_view(fields: Seq<(String, String)>) -> Seq<(Seq<char>, Seq<char>)> {
    fields.map_values(|field: (String, String)| (field.0@, field.1@))
}

/// The text of a string that may be missing.
pub open spec fn text_view(text: Option<String>) -> Option<Seq<char>> {
    match text {
        None => None,
        Some(t) => Some(t@),
    }
}

/// The values that a list of header fields gives to a name, in the order in
/// which they were added.
pub open spec fn header_values(fields: Seq<(Seq<char>, Seq<char>)>, name: Seq<char>) -> Seq<
    Seq<char>,
>
    decreases fields.len(),
{
    if fields.len() == 0 {
        Seq::empty()
    } else if fields.last().0 == name {
        header_values(fields.drop_last(), name).push(fields.last().1)
    } else {
        header_values(fields.drop_last(), name)
    }
}

/// Adding a header field appends its value to the values of its name and
/// leaves the values of every other name as they are: no value is ever
/// overwritten.
pub proof fn lemma_header_appends(
    fields: Seq<(Seq<char>, Seq<char>)>,
    name: Seq<char>,
    value: Seq<char>,
    other: Seq<char>,
)
    ensures
        header_values(fields.push((name, value)), name) == header_values(fields, name).push(value),
        other != name ==> header_values(fields.push((name, value)), other) == header_values(
            fields,
            other,
        ),
{
    assert(fields.push((name, value)).drop_last() =~= fields);
}

/// The mathematical content of a request template.
pub struct TemplateModel {
    pub method: Method,
    pub uri: Seq<char>,
    pub headers: Seq<(Seq<char>, Seq<char>)>,
    pub body: Option<Seq<u8>>,
    pub auth: Option<(Seq<char>, Seq<char>)>,
    pub accept: Option<Seq<char>>,
    pub host_override: Option<Seq<char>>,
    pub proxy: Option<Seq<char>>,
    pub content_type: Option<Seq<char>>,
}

/// The mathematical content of one request built from a template.
pub struct PartsModel {
    pub method: Method,
    pub uri: Seq<char>,
    pub headers: Seq<(Seq<char>, Seq<char>)>,
    pub body: Option<Seq<u8>>,
    pub content_length: Option<nat>,
    pub authorization: Option<(Seq<char>, Seq<char>)>,
    pub accept: Option<Seq<char>>,
    pub host: Option<Seq<char>>,
    pub content_type: Option<Seq<char>>,
}

impl TemplateModel {
    /// The template with nothing but a method and a target.
    pub open spec fn bare(method: Method, uri: Seq<char>) -> TemplateModel {
        TemplateModel {
            method,
            uri,
            headers: Seq::empty(),
            body: None,
            auth: None,
            accept: None,
            host_override: None,
            proxy: None,
            content_type: None,
        }
    }

    /// A template is valid when its target is a URI in absolute form and its
    /// Accept value, if it has one, is well-formed.
    pub open spec fn valid(self) -> bool {
        &&& uri_form(self.uri) == Some(true)
        &&& self.accept matches Some(a) ==> accept_item_parses(a)
    }

    /// The request that every execution sends: a copy of the template, with
    /// the length of the body where there is a body.
    pub open spec fn instance(self) -> PartsModel {
        PartsModel {
            method: self.method,
            uri: self.uri,
            headers: self.headers,
            body: self.body,
            content_length: match self.body {
                None => None,
                Some(bytes) => Some(bytes.len()),
            },
            authorization: self.auth,
            accept: self.accept,
            host: self.host_override,
            content_type: self.content_type,
        }
    }
}

/// One request, ready to be handed to the transport. It shares nothing with
/// the template it was built from, nor with any other request.
#[derive(Clone, Debug, PartialEq, Eq)]
pub struct RequestParts {
    pub method: Method,
    pub uri: String,
    pub headers: Vec<(String, String)>,
    pub body: Option<Vec<u8>>,
    pub content_length: Option<u64>,
    pub authorization: Option<Credentials>,
    pub accept: Option<String>,
    pub host: Option<String>,
    pub content_type: Option<String>,
}

impl View for RequestParts {
    type V = PartsModel;

    open spec fn view(&self) -> PartsModel {
        PartsModel {
            method: self.method,
            uri: self.uri@,
            headers: fields_view(self.headers@),
            body: match self.body {
                None => None,
                Some(bytes) => Some(bytes@),
            },
            content_length: match self.content_length {
                None => None,
                Some(n) => Some(n as nat),
            },
            authorization: match self.authorization {
                None => None,
                Some(c) => Some(c@),
            },
            accept: text_view(self.accept),
            host: text_view(self.host),
            content_type: text_view(self.content_type),
        }
    }
}

/// Copies a text that may be missing.
fn copy_text(text: &Option<String>) -> (copy: Option<String>)
    ensures
        text_view(copy) == text_view(*text),
{
    match text {
        None => None,
        Some(t) => Some(t.clone()),
    }
}

/// Copies a list of header fields.
fn copy_fields(fields: &Vec<(String, String)>) -> (copy: Vec<(String, String)>)
    ensures
        fields_view(copy@) == fields_view(fields@),
{
    let mut copy: Vec<(String, String)> = Vec::new();
    let mut i: usize = 0;
    while i < fields.len()
        invariant
            i <= fields.len(),
            copy@.len() == i,
            forall|j: int|
                0 <= j < i ==> (#[trigger] copy@[j]).0@ == fields@[j].0@ && copy@[j].1@
                    == fields@[j].1@,
        decreases fields.len() - i,
    {
        let name = fields[i].0.clone();
        let value = fields[i].1.clone();
        copy.push((name, value));
        i = i + 1;
    }
    assert(fields_view(copy@) =~= fields_view(fields@));
    copy
}

/// Copies a sequence of bytes.
fn copy_bytes(bytes: &Vec<u8>) -> (copy: Vec<u8>)
    ensures
        copy@ == bytes@,
{
    let mut copy: Vec<u8> = Vec::new();
    let mut i: usize = 0;
    while i < bytes.len()
        invariant
            i <= bytes.len(),
            copy@ == bytes@.take(i as int),
        decreases bytes.len() - i,
    {
        copy.push(bytes[i]);
        i = i + 1;
        assert(copy@ =~= bytes@.take(i as int));
    }
    assert(bytes@.take(bytes.len() as int) =~= bytes@);
    copy
}

/// The immutable description of the request that a run sends. A value of
/// this type is always valid: construction rejects a target that is no
/// absolute URI and an Accept value that is not well-formed.
#[derive(Debug)]
pub struct RequestTemplate {
    method: Method,
    uri: String,
    headers: Vec<(String, String)>,
    body: Option<Vec<u8>>,
    auth: Option<Credentials>,
    accept: Option<String>,
    host_override: Option<String>,
    proxy: Option<String>,
    content_type: Option<String>,
}

impl View for RequestTemplate {
    type V = TemplateModel;

    closed spec fn view(&self) -> TemplateModel {
        TemplateModel {
            method: self.method,
            uri: self.uri@,
            headers: fields_view(self.headers@),
            body: match self.body {
                None => None,
                Some(bytes) => Some(bytes@),
            },
            auth: match self.auth {
                None => None,
                Some(c) => Some(c@),
            },
            accept: text_view(self.accept),
            host_override: text_view(self.host_override),
            proxy: text_view(self.proxy),
            content_type: text_view(self.content_type),
        }
    }
}

/// What `RequestTemplate::from_options` answers, given what the parsers made
/// of the target and of the Accept value. The target is judged first, then
/// the method, the Accept value and the credentials, in this order.
pub open spec fn template_from_options(
    url: &str,
    method: Option<&str>,
    accept: Option<&str>,
    auth: Option<&str>,
    body: Option<&str>,
) -> Result<TemplateModel, ConfigError> {
    if target_verdict(uri_form(url@)) is Err {
        Err(target_verdict(uri_form(url@))->Err_0)
    } else if Method::named_or_get(method) is None {
        Err(ConfigError::UnsupportedMethod)
    } else if accept matches Some(a) && !accept_item_parses(a@) {
        Err(ConfigError::MalformedAccept)
    } else if auth matches Some(a) && credentials_in(a@) is None {
        Err(ConfigError::MalformedCredentials)
    } else {
        Ok(
            TemplateModel {
                method: Method::named_or_get(method)->0,
                uri: url@,
                headers: Seq::empty(),
                body: match body {
                    None => None,
                    Some(b) => Some(b.spec_bytes()),
                },
                auth: match auth {
                    None => None,
                    Some(a) => credentials_in(a@),
                },
                accept: match accept {
                    None => None,
                    Some(a) => Some(a@),
                },
                host_override: None,
                proxy: None,
                content_type: None,
            },
        )
    }
}

impl RequestTemplate {
    #[verifier::type_invariant]
    spec fn valid(self) -> bool {
        self@.valid()
    }

    /// A template with a method and a target and nothing else.
    pub fn new(method: Method, uri: &str) -> (r: Result<RequestTemplate, ConfigError>)
        ensures
            match r {
                Ok(t) => target_verdict(uri_form(uri@)) is Ok && t@ == TemplateModel::bare(
                    method,
                    uri@,
                ) && t@.valid(),
                Err(e) => target_verdict(uri_form(uri@)) == Err::<(), ConfigError>(e),
            },
    {
        match judge_target(inspect_uri(uri)) {
            Err(e) => Err(e),
            Ok(_) => {
                let template = RequestTemplate {
                    method,
                    uri: uri.to_owned(),
                    headers: Vec::new(),
                    body: None,
                    auth: None,
                    accept: None,
                    host_override: None,
                    proxy: None,
                    content_type: None,
                };
                assert(template@.headers =~= Seq::empty());
                Ok(template)
            },
        }
    }

    /// Builds a template from the texts of the options that describe the
    /// request: the target, and optionally the method (GET without one),
    /// the Accept value, the credentials as `username:password`, and the
    /// body.
    pub fn from_options(
        url: &str,
        method: Option<&str>,
        accept: Option<&str>,
        auth: Option<&str>,
        body: Option<&str>,
    ) -> (r: Result<RequestTemplate, ConfigError>)
        ensures
            match r {
                Ok(t) => template_from_options(url, method, accept, auth, body) == Ok::<
                    TemplateModel,
                    ConfigError,
                >(t@) && t@.valid(),
                Err(e) => template_from_options(url, method, accept, auth, body) == Err::<
                    TemplateModel,
                    ConfigError,
                >(e),
            },
    {
        let chosen: Method = match method {
            None => Method::Get,
            Some(name) => match Method::parse(name) {
                Ok(m) => m,
                Err(e) => {
                    return match judge_target(inspect_uri(url)) {
                        Err(first) => Err(first),
                        Ok(_) => Err(e),
                    };
                },
            },
        };
        let template = match RequestTemplate::new(chosen, url) {
            Ok(t) => t,
            Err(e) => {
                return Err(e);
            },
        };
        let template = match accept {
            None => template,
            Some(a) => match template.with_accept(a) {
                Ok(t) => t,
                Err(e) => {
                    return Err(e);
                },
            },
        };
        let template = match auth {
            None => template,
            Some(a) => match Credentials::parse(a) {
                Ok(c) => template.with_basic_auth(c),
                Err(e) => {
                    return Err(e);
                },
            },
        };
        let template = match body {
            None => template,
            Some(b) => template.with_body(b.as_bytes_vec()),
        };
        proof {
            use_type_invariant(&template);
        }
        Ok(template)
    }

    /// The same template with one more header field. A field whose name the
    /// template has already adds a value to that name.
    pub fn with_header(self, name: &str, value: &str) -> (t: RequestTemplate)
        ensures
            t@ == (TemplateModel { headers: self@.headers.push((name@, value@)), ..self@ }),
    {
        proof {
            use_type_invariant(&self);
        }
        let mut headers = self.headers;
        let ghost before = headers@;
        headers.push((name.to_owned(), value.to_owned()));
        assert(fields_view(headers@) =~= fields_view(before).push((name@, value@)));
        RequestTemplate {
            method: self.method,
            uri: self.uri,
            headers,
            body: self.body,
            auth: self.auth,
            accept: self.accept,
            host_override: self.host_override,
            proxy: self.proxy,
            content_type: self.content_type,
        }
    }

    /// The same template with the header field that a line of the form
    /// `Name: value` holds.
    pub fn with_header_line(self, line: &str) -> (r: Result<RequestTemplate, ConfigError>)
        ensures
            match r {
                Ok(t) => header_in(line@) is Some && t@ == (TemplateModel {
                    headers: self@.headers.push(header_in(line@)->0),
                    ..self@
                }),
                Err(e) => e == ConfigError::MalformedHeader && header_in(line@) is None,
            },
    {
        match split_header_line(line) {
            Ok(field) => Ok(self.with_header(field.0.as_str(), field.1.as_str())),
            Err(e) => Err(e),
        }
    }

    /// The same template with a body.
    pub fn with_body(self, body: Vec<u8>) -> (t: RequestTemplate)
        ensures
            t@ == (TemplateModel { body: Some(body@), ..self@ }),
    {
        proof {
            use_type_invariant(&self);
        }
        RequestTemplate {
            method: self.method,
            uri: self.uri,
            headers: self.headers,
            body: Some(body),
            auth: self.auth,
            accept: self.accept,
            host_override: self.host_override,
            proxy: self.proxy,
            content_type: self.content_type,
        }
    }

    /// The same template with credentials for Basic authentication.
    pub fn with_basic_auth(self, credentials: Credentials) -> (t: RequestTemplate)
        ensures
            t@ == (TemplateModel { auth: Some(credentials@), ..self@ }),
    {
        proof {
            use_type_invariant(&self);
        }
        RequestTemplate {
            method: self.method,
            uri: self.uri,
            headers: self.headers,
            body: self.body,
            auth: Some(credentials),
            accept: self.accept,
            host_override: self.host_override,
            proxy: self.proxy,
            content_type: self.content_type,
        }
    }

    /// The same template with an Accept value: a media type with an
    /// optional quality. A value that is not well-formed is rejected.
    pub fn with_accept(self, accept: &str) -> (r: Result<RequestTemplate, ConfigError>)
        ensures
            match r {
                Ok(t) => accept_verdict(accept_item_parses(accept@)) is Ok && t@ == (TemplateModel {
                    accept: Some(accept@),
                    ..self@
                }),
                Err(e) => accept_verdict(accept_item_parses(accept@)) == Err::<(), ConfigError>(e),
            },
    {
        proof {
            use_type_invariant(&self);
        }
        match judge_accept(inspect_accept_item(accept)) {
            Ok(_) => Ok(
                RequestTemplate {
                    method: self.method,
                    uri: self.uri,
                    headers: self.headers,
                    body: self.body,
                    auth: self.auth,
                    accept: Some(accept.to_owned()),
                    host_override: self.host_override,
                    proxy: self.proxy,
                    content_type: self.content_type,
                },
            ),
            Err(e) => Err(e),
        }
    }

    /// The same template with a Host header that replaces the target's.
    pub fn with_host_override(self, host: &str) -> (t: RequestTemplate)
        ensures
            t@ == (TemplateModel { host_override: Some(host@), ..self@ }),
    {
        proof {
            use_type_invariant(&self);
        }
        RequestTemplate {
            method: self.method,
            uri: self.uri,
            headers: self.headers,
            body: self.body,
            auth: self.auth,
            accept: self.accept,
            host_override: Some(host.to_owned()),
            proxy: self.proxy,
            content_type: self.content_type,
        }
    }

    /// The same template with a proxy, as `host:port`.
    pub fn with_proxy(self, proxy: &str) -> (t: RequestTemplate)
        ensures
            t@ == (TemplateModel { proxy: Some(proxy@), ..self@ }),
    {
        proof {
            use_type_invariant(&self);
        }
        RequestTemplate {
            method: self.method,
            uri: self.uri,
            headers: self.headers,
            body: self.body,
            auth: self.auth,
            accept: self.accept,
            host_override: self.host_override,
            proxy: Some(proxy.to_owned()),
            content_type: self.content_type,
        }
    }

    /// The same template with a content type.
    pub fn with_content_type(self, content_type: &str) -> (t: RequestTemplate)
        ensures
            t@ == (TemplateModel { content_type: Some(content_type@), ..self@ }),
    {
        proof {
            use_type_invariant(&self);
        }
        RequestTemplate {
            method: self.method,
            uri: self.uri,
            headers: self.headers,
            body: self.body,
            auth: self.auth,
            accept: self.accept,
            host_override: self.host_override,
            proxy: self.proxy,
            content_type: Some(content_type.to_owned()),
        }
    }

    /// The proxy of the template, if it has one.
    pub fn proxy(&self) -> (proxy: Option<String>)
        ensures
            text_view(proxy) == self@.proxy,
    {
        copy_text(&self.proxy)
    }

    /// Builds the request of one execution. Every call gives a request of
    /// its own; the template stays as it is.
    pub fn instantiate(&self) -> (parts: RequestParts)
        ensures
            parts@ == self@.instance(),
            self@.valid(),
    {
        proof {
            use_type_invariant(self);
        }
        let body: Option<Vec<u8>> = match &self.body {
            None => None,
            Some(bytes) => Some(copy_bytes(bytes)),
        };
        let content_length: Option<u64> = match &self.body {
            None => None,
            Some(bytes) => Some(bytes.len() as u64),
        };
        let authorization: Option<Credentials> = match &self.auth {
            None => None,
            Some(c) => Some(
                Credentials { username: c.username.clone(), password: c.password.clone() },
            ),
        };
        RequestParts {
            method: self.method,
            uri: self.uri.clone(),
            headers: copy_fields(&self.headers),
            body,
            content_length,
            authorization,
            accept: copy_text(&self.accept),
            host: copy_text(&self.host_override),
            content_type: copy_text(&self.content_type),
        }
    }
}

} // verus!
