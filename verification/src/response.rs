//! The outcome of applying a command to the state table.

use vstd::prelude::*;
use vstd::string::StringExecFns;

verus! {

/// What applying a command did.
#[derive(Debug, PartialEq, Eq)]
pub enum Response {
    /// The key was read: key, value.
    Get(String, String),
    /// The key was absent and now holds the value: key, value.
    Inserted(String, String),
    /// The key was present and its value was overwritten: key, old value,
    /// new value.
    Replace(String, String, String),
    /// The key was present and has been removed: key, the value it held.
    Delete(String, String),
    /// The key of a read or a removal was absent: key.
    KeyNotFound(String),
    /// Nothing was done.
    Unknown,
}

/// The mathematical value of a [`Response`].
pub enum ResponseView {
    Get(Seq<char>, Seq<char>),
    Inserted(Seq<char>, Seq<char>),
    Replace(Seq<char>, Seq<char>, Seq<char>),
    Delete(Seq<char>, Seq<char>),
    KeyNotFound(Seq<char>),
    Unknown,
}

impl View for Response {
    type V = ResponseView;

    open spec fn view(&self) -> ResponseView {
        match self {
            Response::Get(k, v) => ResponseView::Get(k@, v@),
            Response::Inserted(k, v) => ResponseView::Inserted(k@, v@),
            Response::Replace(k, old, new) => ResponseView::Replace(k@, old@, new@),
            Response::Delete(k, v) => ResponseView::Delete(k@, v@),
            Response::KeyNotFound(k) => ResponseView::KeyNotFound(k@),
            Response::Unknown => ResponseView::Unknown,
        }
    }
}

impl Clone for Response {
    fn clone(&self) -> (r: Response)
        ensures
            r@ == self@,
    {
        match self {
            Response::Get(k, v) => Response::Get(k.clone(), v.clone()),
            Response::Inserted(k, v) => Response::Inserted(k.clone(), v.clone()),
            Response::Replace(k, old, new) => Response::Replace(
                k.clone(),
                old.clone(),
                new.clone(),
            ),
            Response::Delete(k, v) => Response::Delete(k.clone(), v.clone()),
            Response::KeyNotFound(k) => Response::KeyNotFound(k.clone()),
            Response::Unknown => Response::Unknown,
        }
    }
}

impl ResponseView {
    /// The line that tells the operator what happened.
    pub open spec fn text(self) -> Seq<char> {
        match self {
            ResponseView::Get(k, v) => "Key "@ + k + "="@ + v,
            ResponseView::Inserted(k, v) => "Set "@ + k + "="@ + v,
            ResponseView::Replace(k, old, new) => "Key "@ + k + "="@ + new + ", used to be "@ + old,
            ResponseView::Delete(k, v) => "Deleted key "@ + k + " that was set to "@ + v,
            ResponseView::KeyNotFound(k) => "Key "@ + k + " was not found."@,
            ResponseView::Unknown => "Unknown command"@,
        }
    }
}

impl Response {
    /// The line that tells the operator what happened.
    pub fn to_string(&self) -> (s: String)
        ensures
            s@ == self@.text(),
    {
        match self {
            Response::Get(k, v) => {
                let mut s = String::from_str("Key ");
                s.append(k.as_str());
                s.append("=");
                s.append(v.as_str());
                s
            },
            Response::Inserted(k, v) => {
                let mut s = String::from_str("Set ");
                s.append(k.as_str());
                s.append("=");
                s.append(v.as_str());
                s
            },
            Response::Replace(k, old, new) => {
                let mut s = String::from_str("Key ");
                s.append(k.as_str());
                s.append("=");
                s.append(new.as_str());
                s.append(", used to be ");
                s.append(old.as_str());
                s
            },
            Response::Delete(k, v) => {
                let mut s = String::from_str("Deleted key ");
                s.append(k.as_str());
                s.append(" that was set to ");
                s.append(v.as_str());
                s
            },
            Response::KeyNotFound(k) => {
                let mut s = String::from_str("Key ");
                s.append(k.as_str());
                s.append(" was not found.");
                s
            },
            Response::Unknown => String::from_str("Unknown command"),
        }
    }
}

} // verus!
