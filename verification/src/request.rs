//! From a user's configuration to the validated request template that every
//! execution of a run shares.

use crate::address::{add_http_if_missing, parse_url, parsed_url, with_default_scheme};
use crate::header::{
    all_well_formed, bind_headers, first_malformed, first_malformed_at, header_entry, header_map,
    header_names, lemma_first_malformed_exists, lemma_first_malformed_is_unique, line_texts,
    name_texts, normal_names, Headers,
};
use crate::method::HttpMethod;
use vstd::prelude::*;

verus! {

/// What the user asks for, as given.
#[derive(Clone, Debug)]
pub struct RequestConfig {
    /// The target: a URL, or a host to which `https://` is prepended.
    pub addr: String,
    /// The HTTP method of every request.
    pub method: HttpMethod,
    /// Header lines, each of the form `key: value`.
    pub headers: Option<Vec<String>>,
    /// The request body; only `POST`, `PUT` and `PATCH` may carry one.
    pub body: Option<String>,
    /// The status code that counts as a success.
    pub expected_code: u16,
    /// The number of requests to send.
    pub count: u32,
    /// The pause between two launches, in milliseconds.
    pub delay: u32,
}

impl RequestConfig {
    /// The texts of the header lines; none where no headers were given.
    pub open spec fn header_lines(&self) -> Seq<Seq<char>> {
        match self.headers {
            Some(lines) => line_texts(lines@),
            None => Seq::empty(),
        }
    }

    /// The text of the body, if one was given.
    pub open spec fn body_text(&self) -> Option<Seq<char>> {
        match self.body {
            Some(body) => Some(body@),
            None => None,
        }
    }

    /// The configuration for `addr` with every option at its default: 25
    /// `GET` requests without headers or body, launched without pause,
    /// each expected to answer 200.
    pub fn new(addr: String) -> (config: RequestConfig)
        ensures
            config.addr == addr,
            config.method == HttpMethod::GET,
            config.headers is None,
            config.body is None,
            config.expected_code == 200,
            config.count == 25,
            config.delay == 0,
    {
        RequestConfig {
            addr,
            method: HttpMethod::GET,
            headers: None,
            body: None,
            expected_code: 200,
            count: 25,
            delay: 0,
        }
    }
}

/// Why a configuration yields no template.
#[derive(Debug, PartialEq, Eq)]
pub enum ConfigError {
    /// This header line does not hold exactly one colon.
    MalformedHeader(String),
    /// The address is no absolute URL, even with the scheme defaulted.
    InvalidUrl(url::ParseError),
    /// A body was given for this method, which permits none.
    BodyNotAllowed(HttpMethod),
}

/// A configuration error without the parser's own account of a bad URL.
pub enum ConfigErrorView {
    MalformedHeader(Seq<char>),
    InvalidUrl,
    BodyNotAllowed(HttpMethod),
}

impl View for ConfigError {
    type V = ConfigErrorView;

    open spec fn view(&self) -> ConfigErrorView {
        match self {
            ConfigError::MalformedHeader(line) => ConfigErrorView::MalformedHeader(line@),
            ConfigError::InvalidUrl(_) => ConfigErrorView::InvalidUrl,
            ConfigError::BodyNotAllowed(method) => ConfigErrorView::BodyNotAllowed(*method),
        }
    }
}

/// What a request template holds.
pub struct TemplateView {
    /// The serialization of the absolute target URL.
    pub url: Seq<char>,
    pub method: HttpMethod,
    pub headers: Map<Seq<char>, Seq<char>>,
    pub body: Option<Seq<char>>,
}

/// The validated, immutable description of the request that a run sends.
#[derive(Clone, Debug)]
pub struct RequestTemplate {
    url: String,
    method: HttpMethod,
    headers: Headers,
    body: Option<String>,
}

impl View for RequestTemplate {
    type V = TemplateView;

    closed spec fn view(&self) -> TemplateView {
        TemplateView {
            url: self.url@,
            method: self.method,
            headers: self.headers@,
            body: match self.body {
                Some(body) => Some(body@),
                None => None,
            },
        }
    }
}

impl RequestTemplate {
    /// Whether the template is well formed: its header mapping is.
    pub closed spec fn wf(&self) -> bool {
        self.headers.wf()
    }

    /// The absolute target URL.
    pub fn url(&self) -> (url: &String)
        ensures
            url@ == self@.url,
    {
        &self.url
    }

    /// The HTTP method.
    pub fn method(&self) -> (method: HttpMethod)
        ensures
            method == self@.method,
    {
        self.method
    }

    /// The header mapping.
    pub fn headers(&self) -> (headers: &Headers)
        ensures
            headers@ == self@.headers,
            self.wf() ==> headers.wf(),
    {
        &self.headers
    }

    /// The body, if the request carries one.
    pub fn body(&self) -> (body: Option<&String>)
        ensures
            match body {
                Some(text) => self@.body == Some(text@),
                None => self@.body is None,
            },
    {
        match &self.body {
            Some(text) => Some(text),
            None => None,
        }
    }
}

/// The template that a configuration yields, or the reason why it yields
/// none. `url` is the serialization of the parsed target, `None` where the
/// target is no absolute URL; `normals` gives for each header line the name
/// that a request carries for the name written in it. Header lines are
/// judged first, then the target, then the body. The template binds each
/// header under its carried name, and under the name as written where HTTP
/// admits no such header name.
pub open spec fn template_for(
    lines: Seq<Seq<char>>,
    method: HttpMethod,
    body: Option<Seq<char>>,
    url: Option<Seq<char>>,
    normals: Seq<Option<Seq<char>>>,
) -> Result<TemplateView, ConfigErrorView> {
    if !all_well_formed(lines) {
        Err(ConfigErrorView::MalformedHeader(lines[first_malformed(lines)]))
    } else if url is None {
        Err(ConfigErrorView::InvalidUrl)
    } else if body is Some && !method.permits_body() {
        Err(ConfigErrorView::BodyNotAllowed(method))
    } else {
        Ok(TemplateView { url: url->0, method, headers: header_map(lines, normals), body })
    }
}

/// The views of a template or of the error in its place.
pub open spec fn built_view(built: Result<RequestTemplate, ConfigError>) -> Result<
    TemplateView,
    ConfigErrorView,
> {
    match built {
        Ok(template) => Ok(template@),
        Err(error) => Err(error@),
    }
}

/// The serialization that a parse yielded, if it succeeded.
pub open spec fn url_text(url: Result<String, url::ParseError>) -> Option<Seq<char>> {
    match url {
        Ok(text) => Some(text@),
        Err(_) => None,
    }
}

/// A header line that is not of the form `key: value` makes the whole
/// configuration an error, whatever else it holds: there is no template,
/// and the error names the first such line.
pub proof fn lemma_malformed_header_yields_no_template(
    lines: Seq<Seq<char>>,
    method: HttpMethod,
    body: Option<Seq<char>>,
    url: Option<Seq<char>>,
    normals: Seq<Option<Seq<char>>>,
    i: int,
)
    requires
        0 <= i < lines.len(),
        header_entry(lines[i]) is None,
    ensures
        template_for(lines, method, body, url, normals) == Err::<TemplateView, ConfigErrorView>(
            ConfigErrorView::MalformedHeader(lines[first_malformed(lines)]),
        ),
        first_malformed_at(lines, first_malformed(lines)),
{
    lemma_first_malformed_exists(lines, i);
}

/// A body that comes with `GET`, `DELETE`, `HEAD` or `OPTIONS` makes the
/// configuration an error, whatever else it holds. With `POST`, `PUT` and
/// `PATCH` the same body is accepted and the template carries it, the
/// header lines and the target being in order.
pub proof fn lemma_body_needs_a_method_that_permits_it(
    lines: Seq<Seq<char>>,
    method: HttpMethod,
    body: Seq<char>,
    url: Option<Seq<char>>,
    normals: Seq<Option<Seq<char>>>,
)
    ensures
        method.permits_body() <==> method is POST || method is PUT || method is PATCH,
        !method.permits_body() <==> method is GET || method is DELETE || method is HEAD
            || method is OPTIONS,
        !method.permits_body() ==> template_for(lines, method, Some(body), url, normals) is Err,
        !method.permits_body() && all_well_formed(lines) && url is Some ==> template_for(
            lines,
            method,
            Some(body),
            url,
            normals,
        ) == Err::<TemplateView, ConfigErrorView>(ConfigErrorView::BodyNotAllowed(method)),
        method.permits_body() && all_well_formed(lines) && url is Some ==> template_for(
            lines,
            method,
            Some(body),
            url,
            normals,
        ) == Ok::<TemplateView, ConfigErrorView>(
            TemplateView {
                url: url->0,
                method,
                headers: header_map(lines, normals),
                body: Some(body),
            },
        ),
{
}

/// Builds the template from a configuration and from what the outside
/// parsers made of it: `url` is the outcome of parsing the target, and
/// `names` gives for each header line the name that a request carries for
/// the name written in it (`None` where HTTP admits no such name, and for a
/// malformed line).
pub fn template_from(
    config: &RequestConfig,
    url: Result<String, url::ParseError>,
    names: &Vec<Option<String>>,
) -> (built: Result<RequestTemplate, ConfigError>)
    ensures
        built_view(built) == template_for(
            config.header_lines(),
            config.method,
            config.body_text(),
            url_text(url),
            name_texts(names@),
        ),
        built matches Ok(template) ==> template.wf(),
        built matches Err(ConfigError::InvalidUrl(why)) ==> url == Err::<String, url::ParseError>(
            why,
        ),
{
    let ghost lines = config.header_lines();
    let headers = match &config.headers {
        Some(given) => match bind_headers(given, names) {
            Ok(headers) => headers,
            Err(i) => {
                proof {
                    lemma_first_malformed_is_unique(lines, i as int, first_malformed(lines));
                }
                return Err(ConfigError::MalformedHeader(given[i].clone()));
            },
        },
        None => Headers::new(),
    };
    let url = match url {
        Ok(text) => text,
        Err(why) => {
            return Err(ConfigError::InvalidUrl(why));
        },
    };
    let body = match &config.body {
        Some(text) => {
            if !config.method.allows_body() {
                return Err(ConfigError::BodyNotAllowed(config.method));
            }
            Some(text.clone())
        },
        None => None,
    };
    Ok(RequestTemplate { url, method: config.method, headers, body })
}

/// Validates a configuration and builds the request template from it. The
/// target is `config.addr` with the scheme defaulted to `https`, and must
/// parse as an absolute URL. Each header is bound under the name that a
/// request carries for it.
pub fn build_request(config: &RequestConfig) -> (built: Result<RequestTemplate, ConfigError>)
    ensures
        built_view(built) == template_for(
            config.header_lines(),
            config.method,
            config.body_text(),
            parsed_url(with_default_scheme(config.addr@)),
            normal_names(config.header_lines()),
        ),
        built matches Ok(template) ==> template.wf(),
{
    let address = add_http_if_missing(config.addr.as_str());
    let url = parse_url(address.as_str());
    let names = match &config.headers {
        Some(given) => header_names(given),
        None => Vec::new(),
    };
    proof {
        if config.headers is None {
            assert(name_texts(names@) =~= normal_names(config.header_lines()));
        }
    }
    template_from(config, url, &names)
}

} // verus!
