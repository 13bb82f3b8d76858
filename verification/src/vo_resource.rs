//! Record types for VOResource service descriptions: the shapes in
//! which a registry describes a service, its interfaces and its
//! validation state.  They are plain data, consumed by callers that walk
//! a parsed document.

use vstd::prelude::*;

verus! {

pub type Url = String;

pub type Title = String;

pub type TapQuery = String;

/// The URL (or base URL) a client uses to access a service.  How it is
/// interpreted depends on the interface it belongs to.
#[derive(Debug)]
pub struct AccessUrl(Url);

impl View for AccessUrl {
    type V = Seq<char>;

    closed spec fn view(&self) -> Seq<char> {
        self.0@
    }
}

impl AccessUrl {
    pub fn new(url: Url) -> (r: Self)
        ensures
            r@ == url@,
    {
        AccessUrl(url)
    }
}

/// A URL available as a mirror of an access URL, with a human-readable
/// title intended to aid in mirror selection.
#[derive(Debug)]
pub struct MirrorUrl(pub Url, pub Title);

/// The security method an interface supports: the standard it follows
/// and the role it plays.
#[derive(Debug)]
pub struct SecurityMethod {
    pub standardid: String,
    pub role: String,
}

/// How one interface is reached: its access URL, its mirrors, and the
/// security methods it supports.
#[derive(Debug)]
pub struct IterfaceAccess {
    pub access_url: AccessUrl,
    pub mirror_urls: Vec<MirrorUrl>,
    pub security_methods: Vec<SecurityMethod>,
}

/// A description of one service interface: a web service described by a
/// WSDL document, or an interface meant for a web browser.
#[derive(Debug)]
pub enum Interface {
    WebService { access: IterfaceAccess, wsdl: Url },
    WebBrowser { access: IterfaceAccess },
}

/// How far a resource description has been validated, from merely
/// registered (0) up to inspected and judged excellent (4).
#[derive(Debug)]
pub struct ValidationLevel {
    pub level: u8,
}

/// What a service does and how to use it: one interface and the
/// validation level of its description.
#[derive(Debug)]
pub struct Capability {
    pub interface: Interface,
    pub validation_level: ValidationLevel,
}

/// The descriptive record of one registered resource.
#[derive(Debug)]
pub struct Resource {
    pub identifier: String,
    pub title: String,
    pub description: String,
}

/// Why a resource could not be used.
#[derive(Debug)]
pub enum ResourceError {
    InvalidUrl,
    InvalidXml,
    InvalidResource,
}

/// One way of searching a registry: by identifier, title or
/// description, or with a full TAP query.
#[derive(Debug)]
pub enum SearchParameter {
    Identifier(String),
    Title(String),
    Description(String),
    TapQuery(TapQuery),
}

/// One collection of resources hosted by a single entity.
pub trait Service {
    fn search_resources(&self) -> Vec<Resource>;

    fn get_capabilities(&self) -> Vec<Capability>;
}

} // verus!
