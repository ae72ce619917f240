use vstd::prelude::*;

verus! {

/// A service that the host registers before it serves.
#[derive(Clone, Copy, Debug, PartialEq, Eq, Structural)]
pub enum Service {
    Inventory,
    Reflection,
}

/// The registration set of the host, in the order of registration: the
/// inventory service, then the schema-reflection service.
pub open spec fn registration_spec() -> Seq<Service> {
    seq![Service::Inventory, Service::Reflection]
}

/// The services to register, in order.
pub fn service_registration() -> (r: Vec<Service>)
    ensures
        r@ == registration_spec(),
{
    let r: Vec<Service> = vec![Service::Inventory, Service::Reflection];
    assert(r@ =~= registration_spec());
    r
}

} // verus!
