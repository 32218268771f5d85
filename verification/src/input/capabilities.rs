//! The relay forwards key frames only: a device whose essential input would
//! vanish behind an exclusive grab is refused.
use vstd::prelude::*;

verus! {

/// Event types a key-only relay can grab: SYN, KEY, MSC (scan metadata), LED
/// and REP (device settings).
pub open spec fn grabbable_type(kind: u16) -> bool {
    kind == 0 || kind == 1 || kind == 4 || kind == 17 || kind == 20
}

/// Key codes that the relay output can produce.
pub open spec fn relayable_key(code: u16) -> bool {
    0 < code && code <= 0x2ff
}

#[derive(Debug, Clone, Copy, PartialEq, Eq, Structural)]
pub enum CapabilityError {
    /// An event type that a key-only relay would swallow.
    UnsupportedType(u16),
    NoKeys,
    UnsupportedKey,
}

impl CapabilityError {
    pub fn message(&self) -> (s: String)
        ensures
            s@ == match *self {
                CapabilityError::UnsupportedType(k) => "unsupported input event type "@
                    + crate::text::decimal(k as nat) + "; key-only relay cannot grab this device"@,
                CapabilityError::NoKeys => "device advertises no keys"@,
                CapabilityError::UnsupportedKey => "input key is unsupported by relay output"@,
            },
    {
        match self {
            CapabilityError::UnsupportedType(k) => {
                let mut s = String::from_str("unsupported input event type ");
                crate::text::push_decimal(&mut s, *k as u64);
                s.append("; key-only relay cannot grab this device");
                s
            },
            CapabilityError::NoKeys => String::from_str("device advertises no keys"),
            CapabilityError::UnsupportedKey => String::from_str("input key is unsupported by relay output"),
        }
    }
}

/// The first event type that cannot be grabbed, if any.
pub open spec fn first_bad_type(types: Seq<u16>) -> Option<u16>
    decreases types.len(),
{
    if types.len() == 0 {
        None
    } else if !grabbable_type(types[0]) {
        Some(types[0])
    } else {
        first_bad_type(types.drop_first())
    }
}

/// Checks a device's advertised event types and keys: every type must be
/// grabbable (the first one that is not is reported), at least one key must
/// be advertised, and every key must be relayable.
pub fn validate(types: &[u16], keys: &[u16]) -> (r: Result<(), CapabilityError>)
    ensures
        match first_bad_type(types@) {
            Some(k) => r == Err::<(), CapabilityError>(CapabilityError::UnsupportedType(k)),
            Option::None => if keys@.len() == 0 {
                r == Err::<(), CapabilityError>(CapabilityError::NoKeys)
            } else if exists|i: int| 0 <= i < keys@.len() && !relayable_key(#[trigger] keys@[i]) {
                r == Err::<(), CapabilityError>(CapabilityError::UnsupportedKey)
            } else {
                r == Ok::<(), CapabilityError>(())
            },
        },
{
    let mut i: usize = 0;
    assert(types@.skip(0) =~= types@);
    while i < types.len()
        invariant
            i <= types@.len(),
            first_bad_type(types@) == first_bad_type(types@.skip(i as int)),
        decreases types.len() - i,
    {
        assert(types@.skip(i as int).drop_first() =~= types@.skip(i + 1));
        if !(types[i] == 0 || types[i] == 1 || types[i] == 4 || types[i] == 17 || types[i] == 20) {
            return Err(CapabilityError::UnsupportedType(types[i]));
        }
        i += 1;
    }
    assert(types@.skip(i as int) =~= Seq::<u16>::empty());
    if keys.len() == 0 {
        return Err(CapabilityError::NoKeys);
    }
    let mut j: usize = 0;
    while j < keys.len()
        invariant
            j <= keys@.len(),
            forall|k: int| 0 <= k < j ==> relayable_key(#[trigger] keys@[k]),
            first_bad_type(types@) is None,
            keys@.len() > 0,
        decreases keys.len() - j,
    {
        if !(keys[j] > 0 && keys[j] <= 0x2ff) {
            assert(!relayable_key(keys@[j as int]));
            return Err(CapabilityError::UnsupportedKey);
        }
        j += 1;
    }
    Ok(())
}

} // verus!
