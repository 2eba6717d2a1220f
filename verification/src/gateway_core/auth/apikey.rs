//! API key authentication.
//!
//! Keys are compared in constant time, and a rejected credential always
//! gets the same error, whether the key is unknown or wrong.

use vstd::prelude::*;
use vstd::string::StringSliceAdditionalSpecFns;
use vstd::utf8::encode_utf8;

use crate::gateway_core::auth::{constant_time_eq, Authenticator};
use crate::gateway_core::error::CoreError;

verus! {

/// An authenticator holding a set of valid API keys.
pub struct ApiKeyAuthenticator {
    keys: Vec<String>,
}

/// No key occurs twice.
pub open spec fn distinct_keys(keys: Seq<String>) -> bool {
    forall|i: int, j: int| 0 <= i < j < keys.len() ==> keys[i]@ != keys[j]@
}

/// The error every rejected credential gets.
pub open spec fn is_api_key_rejection(e: CoreError) -> bool {
    e matches CoreError::Auth(m) && m@ == "invalid or missing api key"@
}

impl ApiKeyAuthenticator {
    /// The registered keys.
    pub closed spec fn keys(&self) -> Set<Seq<char>> {
        Set::new(|k: Seq<char>| exists|i: int| 0 <= i < self.keys@.len() && self.keys@[i]@ == k)
    }

    #[verifier::type_invariant]
    closed spec fn inv(&self) -> bool {
        distinct_keys(self.keys@)
    }

    /// An authenticator with no keys.
    pub fn new() -> (a: Self)
        ensures
            a.keys() == Set::<Seq<char>>::empty(),
    {
        let a = ApiKeyAuthenticator { keys: Vec::new() };
        assert(a.keys() =~= Set::<Seq<char>>::empty());
        a
    }

    fn position(&self, key: &str) -> (r: Option<usize>)
        ensures
            r matches Some(i) ==> i < self.keys@.len() && self.keys@[i as int]@ == key@,
            r is None ==> !self.keys().contains(key@),
    {
        let wanted = key.to_owned();
        let n = self.keys.len();
        for i in 0..n
            invariant
                n == self.keys@.len(),
                wanted@ == key@,
                forall|j: int| 0 <= j < i ==> self.keys@[j]@ != key@,
        {
            if self.keys[i] == wanted {
                return Some(i);
            }
        }
        None
    }

    /// Registers a key.
    pub fn register(&mut self, key: String)
        ensures
            final(self).keys() == old(self).keys().insert(key@),
    {
        proof {
            use_type_invariant(&*self);
        }
        let ghost old_keys = self.keys();
        match self.position(key.as_str()) {
            Some(_) => {
                assert(self.keys() =~= old_keys.insert(key@));
            },
            None => {
                let ghost kv = key@;
                let mut keys: Vec<String> = Vec::new();
                std::mem::swap(&mut keys, &mut self.keys);
                keys.push(key);
                self.keys = keys;
                assert(self.keys() =~= old_keys.insert(kv)) by {
                    assert(self.keys@.last()@ == kv);
                    assert forall|k: Seq<char>| old_keys.contains(k) implies self.keys().contains(k) by {
                        let i = choose|i: int| 0 <= i < old(self).keys@.len() && old(self).keys@[i]@ == k;
                        assert(self.keys@[i] == old(self).keys@[i]);
                    }
                }
            },
        }
    }

    /// Removes a key.
    pub fn unregister(&mut self, key: &str)
        ensures
            final(self).keys() == old(self).keys().remove(key@),
    {
        proof {
            use_type_invariant(&*self);
        }
        let ghost old_keys = self.keys();
        let ghost old_vec = self.keys@;
        match self.position(key) {
            Some(i) => {
                let mut keys: Vec<String> = Vec::new();
                std::mem::swap(&mut keys, &mut self.keys);
                keys.remove(i);
                self.keys = keys;
                assert(self.keys() =~= old_keys.remove(key@)) by {
                    assert forall|k: Seq<char>| #[trigger] self.keys().contains(k) implies old_keys.remove(key@).contains(k) by {
                        let j = choose|j: int| 0 <= j < self.keys@.len() && self.keys@[j]@ == k;
                        if j < i {
                            assert(self.keys@[j] == old_vec[j]);
                        } else {
                            assert(self.keys@[j] == old_vec[j + 1]);
                        }
                    }
                    assert forall|k: Seq<char>| old_keys.remove(key@).contains(k) implies #[trigger] self.keys().contains(k) by {
                        let j = choose|j: int| 0 <= j < old_vec.len() && old_vec[j]@ == k;
                        if j < i {
                            assert(self.keys@[j] == old_vec[j]);
                        } else {
                            assert(j != i);
                            assert(self.keys@[j - 1] == old_vec[j]);
                        }
                    }
                }
            },
            None => {
                assert(self.keys() =~= old_keys.remove(key@));
            },
        }
    }

    /// Whether no key is registered.
    pub fn is_empty(&self) -> (b: bool)
        ensures
            b == (self.keys() == Set::<Seq<char>>::empty()),
    {
        let b = self.keys.len() == 0;
        if !b {
            assert(self.keys().contains(self.keys@[0]@));
        } else {
            assert(self.keys() =~= Set::<Seq<char>>::empty());
        }
        b
    }

    /// Checks a credential against every registered key, in constant time
    /// per key; keys of another byte length are skipped.
    pub fn check(&self, credential: &str) -> (r: Result<(), CoreError>)
        ensures
            r is Ok <==> self.keys().contains(credential@),
            r matches Err(e) ==> is_api_key_rejection(e),
    {
        let b = credential.as_bytes();
        assert(b@ == encode_utf8(credential@));
        let mut ok: u8 = 0;
        let n = self.keys.len();
        proof {
            vstd::utf8::encode_utf8_decode_utf8(credential@);
        }
        for i in 0..n
            invariant
                n == self.keys@.len(),
                b@ == encode_utf8(credential@),
                ok == 0 || ok == 1,
                (ok == 1) <==> exists|j: int| 0 <= j < i && self.keys@[j]@ == credential@,
        {
            let stored = self.keys[i].as_str();
            let a = stored.as_bytes();
            proof {
                vstd::utf8::encode_utf8_decode_utf8(stored@);
                assert(a@ == encode_utf8(self.keys@[i as int]@));
                assert(b@ == credential.spec_bytes());
            }
            // Keys of another length are skipped; the others are compared in constant time.
            if a.len() == b.len() {
                if constant_time_eq(a, b) {
                    ok = 1;
                }
            }
            proof {
                let k = self.keys@[i as int]@;
                vstd::utf8::encode_utf8_decode_utf8(k);
                vstd::utf8::encode_utf8_decode_utf8(credential@);
                if a@ == b@ {
                    assert(k == credential@);
                }
                if k == credential@ {
                    assert(a@ == b@);
                    assert(ok == 1);
                }
                if ok == 1 && k != credential@ {
                    let j = choose|j: int| 0 <= j < i && self.keys@[j]@ == credential@;
                    assert(0 <= j < i + 1);
                }
            }
        }
        if ok == 1 {
            Ok(())
        } else {
            Err(CoreError::Auth(String::from_str("invalid or missing api key")))
        }
    }
}

impl Default for ApiKeyAuthenticator {
    fn default() -> (a: Self)
        ensures
            a.keys() == Set::<Seq<char>>::empty(),
    {
        Self::new()
    }
}

impl Authenticator for ApiKeyAuthenticator {
    fn verify(&self, credential: &str) -> (r: Result<(), CoreError>)
        ensures
            r is Ok <==> self.keys().contains(credential@),
            r matches Err(e) ==> is_api_key_rejection(e),
    {
        self.check(credential)
    }
}

} // verus!
