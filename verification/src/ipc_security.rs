//! The access rules of the named pipe.
use vstd::prelude::*;

verus! {

/// The security descriptor of the pipe, in the system's notation: the user with
/// the given identifier and the system have full access, and the pipe is labelled
/// with medium integrity, so that a client without elevation reaches an elevated
/// daemon.
pub open spec fn descriptor_for(sid: Seq<char>) -> Seq<char> {
    "D:(A;;FA;;;"@ + sid + ")(A;;FA;;;SY)S:(ML;;NW;;;ME)"@
}

/// The security descriptor of the pipe for a user. `None` where the user could not
/// be identified; the pipe then has the system's default rules.
pub fn pipe_descriptor(sid: Option<&str>) -> (r: Option<String>)
    ensures
        match (r, sid) {
            (Some(descriptor), Some(sid)) => descriptor@ == descriptor_for(sid@),
            (None, None) => true,
            _ => false,
        },
{
    match sid {
        Some(sid) => {
            let mut descriptor: String = "D:(A;;FA;;;".to_owned();
            descriptor.append(sid);
            descriptor.append(")(A;;FA;;;SY)S:(ML;;NW;;;ME)");
            Some(descriptor)
        },
        None => None,
    }
}

/// The descriptor names the user between two fixed parts, of which the first grants access
/// to whom it names and the second to the system, and so tells two users apart.
pub proof fn law_descriptors_name_their_user(sid: Seq<char>, other: Seq<char>)
    ensures
        descriptor_for(sid).take(11) == "D:(A;;FA;;;"@,
        descriptor_for(sid).subrange(11, 11 + sid.len() as int) == sid,
        descriptor_for(sid).skip(11 + sid.len() as int) == ")(A;;FA;;;SY)S:(ML;;NW;;;ME)"@,
        descriptor_for(sid) == descriptor_for(other) ==> sid == other,
{
    reveal_strlit("D:(A;;FA;;;");
    reveal_strlit(")(A;;FA;;;SY)S:(ML;;NW;;;ME)");
    let a = descriptor_for(sid);
    let b = descriptor_for(other);
    assert(a.take(11) =~= "D:(A;;FA;;;"@);
    assert(a.subrange(11, 11 + sid.len() as int) =~= sid);
    assert(b.subrange(11, 11 + other.len() as int) =~= other);
    assert(a.skip(11 + sid.len() as int) =~= ")(A;;FA;;;SY)S:(ML;;NW;;;ME)"@);
    if a == b {
        assert(a.len() == b.len());
    }
}

} // verus!
