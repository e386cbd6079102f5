use vstd::prelude::*;
use vstd::string::{StringExecFns, StrSliceExecFns};

verus! {

/// A canonical cross-platform identity. The pair (`origin_id`, `platform`) is
/// the unique key of the store; `ref_id` optionally links this identity to a
/// counterpart identity on another platform.
#[derive(Debug)]
pub struct BridgeUser {
    pub id: String,
    pub origin_id: String,
    pub platform: String,
    pub display_text: String,
    pub ref_id: Option<String>,
}

/// The mathematical form of a bridge user.
pub struct BridgeUserV {
    pub id: Seq<char>,
    pub origin_id: Seq<char>,
    pub platform: Seq<char>,
    pub display_text: Seq<char>,
    pub ref_id: Option<Seq<char>>,
}

impl View for BridgeUser {
    type V = BridgeUserV;

    open spec fn view(&self) -> BridgeUserV {
        BridgeUserV {
            id: self.id@,
            origin_id: self.origin_id@,
            platform: self.platform@,
            display_text: self.display_text@,
            ref_id: match self.ref_id {
                Some(r) => Some(r@),
                None => None,
            },
        }
    }
}

impl Clone for BridgeUser {
    fn clone(&self) -> (r: Self)
        ensures
            r@ == self@,
    {
        BridgeUser {
            id: self.id.clone(),
            origin_id: self.origin_id.clone(),
            platform: self.platform.clone(),
            display_text: self.display_text.clone(),
            ref_id: match &self.ref_id {
                Some(r) => Some(r.clone()),
                None => None,
            },
        }
    }
}

/// Transient creation input for a new identity; not persisted standalone.
pub struct BridgeUserSaveForm {
    pub origin_id: String,
    pub platform: String,
    pub display_text: String,
}

/// The mathematical form of a save form.
pub struct BridgeUserSaveFormV {
    pub origin_id: Seq<char>,
    pub platform: Seq<char>,
    pub display_text: Seq<char>,
}

impl View for BridgeUserSaveForm {
    type V = BridgeUserSaveFormV;

    open spec fn view(&self) -> BridgeUserSaveFormV {
        BridgeUserSaveFormV {
            origin_id: self.origin_id@,
            platform: self.platform@,
            display_text: self.display_text@,
        }
    }
}

/// The canonical display form of an identity: `[platform] display_text`.
pub open spec fn display_form(platform: Seq<char>, display_text: Seq<char>) -> Seq<char> {
    seq!['['] + platform + seq![']', ' '] + display_text
}

impl BridgeUser {
    /// Renders the identity's human-readable label, `[platform] display_text`.
    pub fn to_display_string(&self) -> (r: String)
        ensures
            r@ == display_form(self.platform@, self.display_text@),
    {
        proof {
            reveal_strlit("[");
            reveal_strlit("] ");
        }
        let mut r = String::from_str("[");
        r.append(self.platform.as_str());
        r.append("] ");
        r.append(self.display_text.as_str());
        proof {
            assert(r@ =~= display_form(self.platform@, self.display_text@));
        }
        r
    }
}

/// Equality of two text slices, decided character by character.
pub fn str_eq(a: &str, b: &str) -> (r: bool)
    ensures
        r == (a@ == b@),
{
    let na = a.unicode_len();
    let nb = b.unicode_len();
    if na != nb {
        proof {
            assert(a@ != b@);
        }
        return false;
    }
    let mut i: usize = 0;
    loop
        invariant
            i <= na,
            na == a@.len() == b@.len(),
            forall|t: int| 0 <= t < i ==> a@[t] == b@[t],
        ensures
            a@ == b@,
        decreases na - i,
    {
        if i >= na {
            proof {
                assert(a@ =~= b@);
            }
            break;
        }
        if s_ne(a, b, i) {
            return false;
        }
        i = i + 1;
    }
    true
}

/// One character position differs.
fn s_ne(a: &str, b: &str, i: usize) -> (r: bool)
    requires
        i < a@.len(),
        i < b@.len(),
    ensures
        r == (a@[i as int] != b@[i as int]),
{
    a.get_char(i) != b.get_char(i)
}

} // verus!
