//! Visual models of in-memory data structures (arrays and linked lists of
//! styled elements), the structured documents that describe them, and the
//! session in which such documents are handed to a server that draws them.

use vstd::prelude::*;
use crate::document::{merge, merged, Document, Json, Object};
use crate::text::{decimal, decimal_text};

pub mod array;
pub mod document;
pub mod element;
pub mod encode;
pub mod link;
pub mod linked_list;
pub mod text;

verus! {

/// Values that can be carried by an [`element::Element`]: anything that can be
/// cloned and has a default.
pub trait CloneDefault: Clone + Default {

}

impl<T> CloneDefault for T where T: Clone + Default {

}

/// The server that draws the visualizations.
#[derive(Clone, Copy, Debug, PartialEq, Eq, Structural)]
pub enum Server {
    Live,
    Clone,
    Local,
    Unset,
}

impl Server {
    /// The address under which the server is reached.
    pub open spec fn address(self) -> Seq<char> {
        match self {
            Server::Live => "http://bridges-cs.herokuapp.com"@,
            Server::Clone => "http://bridges-clone.herokuapp.com"@,
            Server::Local => "http://127.0.0.1:3000"@,
            Server::Unset => ""@,
        }
    }

    /// The server that goes by `name`: `live`, `clone` or `local`.
    pub open spec fn named(name: Seq<char>) -> Server {
        if name == "live"@ {
            Server::Live
        } else if name == "clone"@ {
            Server::Clone
        } else if name == "local"@ {
            Server::Local
        } else {
            Server::Unset
        }
    }

    /// The address under which the server is reached.
    pub fn url(&self) -> (url: &'static str)
        ensures
            url@ == self.address(),
    {
        match self {
            Server::Live => "http://bridges-cs.herokuapp.com",
            Server::Clone => "http://bridges-clone.herokuapp.com",
            Server::Local => "http://127.0.0.1:3000",
            Server::Unset => "",
        }
    }
}

/// What every visualization says of itself, whatever it shows.
#[derive(Debug)]
struct GeneralFields {
    title: String,
    map_overlay: bool,
    coord_system_type: String,
}

/// A session with a server: who hands in which assignment, how the
/// visualization is titled, and the data structure that it shows.
#[derive(Debug)]
pub struct Bridges {
    pub assignment_number: u32,
    pub user_name: String,
    pub api_key: String,
    server: Server,
    general_fields: GeneralFields,
    data_structure: Document,
    subassignment_index: u32,
    show_json: bool,
}

/// What a session holds.
pub struct BridgesView {
    pub assignment_number: u32,
    pub user_name: Seq<char>,
    pub api_key: Seq<char>,
    pub server: Server,
    pub title: Seq<char>,
    pub map_overlay: bool,
    pub coord_system_type: Seq<char>,
    pub data_structure: Json,
    pub subassignment_index: u32,
    pub show_json: bool,
}

impl BridgesView {
    /// The session of a user who has not handed in anything yet.
    pub open spec fn fresh(assignment_number: u32, user_name: Seq<char>, api_key: Seq<char>) -> Self {
        BridgesView {
            assignment_number,
            user_name,
            api_key,
            server: Server::Live,
            title: Seq::empty(),
            map_overlay: false,
            coord_system_type: Seq::empty(),
            data_structure: Json::Null,
            subassignment_index: 0,
            show_json: false,
        }
    }

    /// The document of the general fields: title, map overlay and coordinate
    /// system.
    pub open spec fn general_fields(self) -> Json {
        Json::Object(
            Map::empty().insert("title"@, Json::Text(self.title)).insert(
                "map_overlay"@,
                Json::Bool(self.map_overlay),
            ).insert("coord_system_type"@, Json::Text(self.coord_system_type)),
        )
    }

    /// The document that is handed to the server: the data structure laid
    /// over the general fields.
    pub open spec fn document(self) -> Json {
        merged(self.general_fields(), self.data_structure)
    }

    /// Where the document is handed in: the assignment and its part, the
    /// part with two digits at least, and who hands it in.
    pub open spec fn uri(self) -> Seq<char> {
        self.server.address() + "/assignments/"@ + decimal(self.assignment_number as nat) + "."@
            + (if self.subassignment_index < 10 {
            "0"@
        } else {
            ""@
        }) + decimal(self.subassignment_index as nat) + "?apikey="@ + self.api_key
            + "&username="@ + self.user_name
    }

    /// Where the user finds the visualization once it is handed in.
    pub open spec fn link(self) -> Seq<char> {
        self.server.address() + "/assignments/"@ + decimal(self.assignment_number as nat) + "/"@
            + self.user_name
    }
}

/// A document and the place to hand it in.
#[derive(Debug, PartialEq)]
pub struct Request {
    pub uri: String,
    pub body: Document,
}

/// What came of handing a document in.
#[derive(Debug, PartialEq, Eq)]
pub enum Outcome {
    /// The server took the document; the visualization is found under `link`.
    Delivered { link: String },
    /// The server answered with a status other than 200.
    Refused { status: u16 },
}

impl View for Bridges {
    type V = BridgesView;

    closed spec fn view(&self) -> BridgesView {
        BridgesView {
            assignment_number: self.assignment_number,
            user_name: self.user_name@,
            api_key: self.api_key@,
            server: self.server,
            title: self.general_fields.title@,
            map_overlay: self.general_fields.map_overlay,
            coord_system_type: self.general_fields.coord_system_type@,
            data_structure: self.data_structure@,
            subassignment_index: self.subassignment_index,
            show_json: self.show_json,
        }
    }
}

impl Bridges {
    /// A session for `user_name` on the live server, with nothing to show yet.
    pub fn new(assignment_number: u32, user_name: &str, api_key: &str) -> (bridges: Bridges)
        ensures
            bridges@ == BridgesView::fresh(assignment_number, user_name@, api_key@),
    {
        Self::new_from_strings(
            assignment_number,
            String::from_str(user_name),
            String::from_str(api_key),
        )
    }

    /// A session for `user_name` on the live server, with nothing to show yet.
    pub fn new_from_strings(assignment_number: u32, user_name: String, api_key: String) -> (bridges:
        Bridges)
        ensures
            bridges@ == BridgesView::fresh(assignment_number, user_name@, api_key@),
    {
        Bridges {
            assignment_number,
            user_name,
            api_key,
            server: Server::Live,
            general_fields: GeneralFields {
                title: String::new(),
                map_overlay: false,
                coord_system_type: String::new(),
            },
            data_structure: Document::Null,
            subassignment_index: 0,
            show_json: false,
        }
    }

    pub fn set_server(&mut self, server: Server)
        ensures
            final(self)@ == (BridgesView { server, ..old(self)@ }),
    {
        self.server = server;
    }

    /// Sets the server by its name, `live`, `clone` or `local`. Any other
    /// name is refused and leaves the session as it is.
    pub fn set_server_from_str(&mut self, server: &str) -> (chosen: Result<Server, &'static str>)
        ensures
            match chosen {
                Ok(named) => named == Server::named(server@) && named != Server::Unset
                    && final(self)@ == (BridgesView { server: named, ..old(self)@ }),
                Err(message) => Server::named(server@) == Server::Unset && final(self)@ == old(
                    self,
                )@ && message@ == "Invalid server use: live, clone, or local"@,
            },
    {
        let name = String::from_str(server);
        let named = if name == String::from_str("live") {
            Server::Live
        } else if name == String::from_str("clone") {
            Server::Clone
        } else if name == String::from_str("local") {
            Server::Local
        } else {
            Server::Unset
        };
        match named {
            Server::Unset => Err("Invalid server use: live, clone, or local"),
            _ => {
                self.set_server(named);
                Ok(named)
            },
        }
    }

    pub fn set_title(&mut self, title: String)
        ensures
            final(self)@ == (BridgesView { title: title@, ..old(self)@ }),
    {
        self.general_fields.title = title;
    }

    pub fn set_map_overlay(&mut self, map_overlay: bool)
        ensures
            final(self)@ == (BridgesView { map_overlay, ..old(self)@ }),
    {
        self.general_fields.map_overlay = map_overlay;
    }

    pub fn set_show_json(&mut self, show_json: bool)
        ensures
            final(self)@ == (BridgesView { show_json, ..old(self)@ }),
    {
        self.show_json = show_json;
    }

    /// Whether the document is to be shown when it is handed in.
    pub fn show_json(&self) -> (show_json: bool)
        ensures
            show_json == self@.show_json,
    {
        self.show_json
    }

    /// The number of documents handed in so far.
    pub fn subassignment_index(&self) -> (index: u32)
        ensures
            index == self@.subassignment_index,
    {
        self.subassignment_index
    }

    /// Takes the document of a data structure as the one to show.
    pub fn update_data_structure(&mut self, data_structure: Document)
        ensures
            final(self)@ == (BridgesView { data_structure: data_structure@, ..old(self)@ }),
    {
        self.data_structure = data_structure;
    }

    /// Where the next document is handed in.
    pub fn uri(&self) -> (uri: String)
        ensures
            uri@ == self@.uri(),
    {
        let mut uri = String::from_str(self.server.url());
        uri.append("/assignments/");
        uri.append(decimal_text(self.assignment_number).as_str());
        uri.append(".");
        uri.append(
            if self.subassignment_index < 10 {
                "0"
            } else {
                ""
            },
        );
        uri.append(decimal_text(self.subassignment_index).as_str());
        uri.append("?apikey=");
        uri.append(self.api_key.as_str());
        uri.append("&username=");
        uri.append(self.user_name.as_str());
        uri
    }

    /// Where the user finds the visualization once it is handed in.
    pub fn link(&self) -> (link: String)
        ensures
            link@ == self@.link(),
    {
        let mut link = String::from_str(self.server.url());
        link.append("/assignments/");
        link.append(decimal_text(self.assignment_number).as_str());
        link.append("/");
        link.append(self.user_name.as_str());
        link
    }

    /// The document to hand in: the data structure laid over the general
    /// fields. None where the session has no data structure to show.
    pub fn document(&self) -> (document: Option<Document>)
        ensures
            document is None <==> self@.data_structure is Null,
            match document {
                Some(written) => written@ == self@.document(),
                None => self@.document() is Null,
            },
    {
        let mut general = Object::new();
        general.insert(
            String::from_str("title"),
            Document::Text(self.general_fields.title.clone()),
        );
        general.insert(
            String::from_str("map_overlay"),
            Document::Bool(self.general_fields.map_overlay),
        );
        general.insert(
            String::from_str("coord_system_type"),
            Document::Text(self.general_fields.coord_system_type.clone()),
        );
        let mut document = Document::Object(general);
        merge(&mut document, self.data_structure.clone());
        match document {
            Document::Null => None,
            written => Some(written),
        }
    }

    /// What is to be handed in next, and where. None where the session has
    /// no data structure to show.
    pub fn visualize(&self) -> (request: Option<Request>)
        ensures
            request is None <==> self@.data_structure is Null,
            request matches Some(prepared) ==> prepared.uri@ == self@.uri() && prepared.body@
                == self@.document(),
    {
        match self.document() {
            Some(body) => Some(Request { uri: self.uri(), body }),
            None => None,
        }
    }

    /// Takes note that the server has answered with `status`, and says what
    /// came of it. Whatever the answer, the next document counts as the next
    /// part of the assignment.
    pub fn delivered(&mut self, status: u16) -> (outcome: Outcome)
        requires
            old(self)@.subassignment_index < u32::MAX,
        ensures
            final(self)@ == (BridgesView {
                subassignment_index: (old(self)@.subassignment_index + 1) as u32,
                ..old(self)@
            }),
            match outcome {
                Outcome::Delivered { link } => status == 200 && link@ == old(self)@.link(),
                Outcome::Refused { status: refused } => status != 200 && refused == status,
            },
    {
        let link = self.link();
        self.subassignment_index = self.subassignment_index + 1;
        if status == 200 {
            Outcome::Delivered { link }
        } else {
            Outcome::Refused { status }
        }
    }

    /// Takes the document of a data structure as the one to show and says
    /// what is to be handed in, and where.
    pub fn update_and_visualize(&mut self, data_structure: Document) -> (request: Option<Request>)
        ensures
            final(self)@ == (BridgesView { data_structure: data_structure@, ..old(self)@ }),
            request is None <==> data_structure@ is Null,
            request matches Some(prepared) ==> prepared.uri@ == final(self)@.uri()
                && prepared.body@ == final(self)@.document(),
    {
        self.update_data_structure(data_structure);
        self.visualize()
    }
}

/// A session for `user_name` on the live server, with nothing to show yet.
pub fn new(assignment_number: u32, user_name: &str, api_key: &str) -> (bridges: Bridges)
    ensures
        bridges@ == BridgesView::fresh(assignment_number, user_name@, api_key@),
{
    Bridges::new_from_strings(
        assignment_number,
        String::from_str(user_name),
        String::from_str(api_key),
    )
}

/// A session for `user_name` on the live server, with nothing to show yet.
pub fn new_from_strings(assignment_number: u32, user_name: String, api_key: String) -> (bridges:
    Bridges)
    ensures
        bridges@ == BridgesView::fresh(assignment_number, user_name@, api_key@),
{
    Bridges::new_from_strings(assignment_number, user_name, api_key)
}

} // verus!
