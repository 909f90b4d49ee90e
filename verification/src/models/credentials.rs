use vstd::prelude::*;

verus! {

/// One named secret: its name, its payload and an optional note.
#[derive(Clone, Debug, PartialEq, Eq)]
pub struct Credentials {
    pub key: String,
    pub value: String,
    pub info: Option<String>,
}

/// A credential as mathematical text.
pub struct CredentialsView {
    pub key: Seq<char>,
    pub value: Seq<char>,
    pub info: Option<Seq<char>>,
}

/// The note that a note text stands for: an empty text means no note.
pub open spec fn note_of(info: Seq<char>) -> Option<Seq<char>> {
    if info.len() == 0 {
        None
    } else {
        Some(info)
    }
}

impl View for Credentials {
    type V = CredentialsView;

    open spec fn view(&self) -> CredentialsView {
        CredentialsView {
            key: self.key@,
            value: self.value@,
            info: match self.info {
                Some(i) => Some(i@),
                None => None,
            },
        }
    }
}

impl CredentialsView {
    /// A note, where present, is never the empty text.
    pub open spec fn well_formed(self) -> bool {
        self.info matches Some(i) ==> i.len() > 0
    }
}

impl Credentials {
    /// A note, where present, is never the empty text.
    pub open spec fn well_formed(&self) -> bool {
        self@.well_formed()
    }

    /// A credential from its three texts; an empty `info` means no note.
    pub fn new(key: &str, value: &str, info: &str) -> (c: Self)
        ensures
            c@ == (CredentialsView { key: key@, value: value@, info: note_of(info@) }),
            c.well_formed(),
    {
        if info.is_empty() {
            Credentials { key: key.to_owned(), value: value.to_owned(), info: None }
        } else {
            Credentials {
                key: key.to_owned(),
                value: value.to_owned(),
                info: Some(info.to_owned()),
            }
        }
    }

    /// The three texts of the credential; a missing note is the empty text.
    pub fn provide(&self) -> (t: (String, String, String))
        ensures
            t.0@ == self@.key,
            t.1@ == self@.value,
            t.2@ == match self@.info {
                Some(i) => i,
                None => Seq::<char>::empty(),
            },
    {
        match &self.info {
            Some(info) => (self.key.clone(), self.value.clone(), info.clone()),
            None => (self.key.clone(), self.value.clone(), String::new()),
        }
    }

    /// A copy of the credential.
    pub fn duplicate(&self) -> (c: Self)
        ensures
            c@ == self@,
    {
        let info = match &self.info {
            Some(i) => Some(i.clone()),
            None => None,
        };
        Credentials { key: self.key.clone(), value: self.value.clone(), info }
    }
}

} // verus!
