//! Network interfaces, as the kernel describes them.
use vstd::prelude::*;

use crate::network::error::NetworkError;

verus! {

/// What the kernel says of an interface.
#[derive(Debug)]
pub enum LinkAttribute {
    /// Its name.
    IfName(String),
    /// The index of the bridge it belongs to; zero where it belongs to none.
    Controller(u32),
    /// Its hardware address.
    Address(Vec<u8>),
    /// Anything else.
    Other,
}

/// An interface.
#[derive(Debug)]
pub struct Link {
    pub index: u32,
    pub attributes: Vec<LinkAttribute>,
}

/// Whether the attribute is that name.
pub open spec fn is_name(attribute: LinkAttribute, name: Seq<char>) -> bool {
    attribute matches LinkAttribute::IfName(own) && own@ == name
}

/// The first name among the attributes.
pub open spec fn first_name(attributes: Seq<LinkAttribute>) -> Option<Seq<char>>
    decreases attributes.len(),
{
    if attributes.len() == 0 {
        None
    } else {
        match attributes[0] {
            LinkAttribute::IfName(name) => Some(name@),
            _ => first_name(attributes.drop_first()),
        }
    }
}

/// The first controller among the attributes that is not zero.
pub open spec fn first_controller(attributes: Seq<LinkAttribute>) -> Option<u32>
    decreases attributes.len(),
{
    if attributes.len() == 0 {
        None
    } else {
        match attributes[0] {
            LinkAttribute::Controller(index) if index != 0 => Some(index),
            _ => first_controller(attributes.drop_first()),
        }
    }
}

/// The first hardware address among the attributes that is not empty.
pub open spec fn first_address(attributes: Seq<LinkAttribute>) -> Option<Seq<u8>>
    decreases attributes.len(),
{
    if attributes.len() == 0 {
        None
    } else {
        match attributes[0] {
            LinkAttribute::Address(address) if address@.len() > 0 => Some(address@),
            _ => first_address(attributes.drop_first()),
        }
    }
}

impl Link {
    /// The name of the interface.
    pub open spec fn name(self) -> Option<Seq<char>> {
        first_name(self.attributes@)
    }

    /// Whether one of the attributes is that name.
    pub open spec fn has_name(self, name: Seq<char>) -> bool {
        exists|i: int|
            0 <= i < self.attributes@.len() && #[trigger] is_name(self.attributes@[i], name)
    }

    /// The bridge to which the interface belongs.
    pub open spec fn controller(self) -> Option<u32> {
        first_controller(self.attributes@)
    }

    /// The hardware address of the interface.
    pub open spec fn mac(self) -> Option<Seq<u8>> {
        first_address(self.attributes@)
    }
}

/// What an optional text holds.
pub open spec fn text_of(text: Option<String>) -> Option<Seq<char>> {
    match text {
        Some(t) => Some(t@),
        None => None,
    }
}

/// What an optional list of bytes holds.
pub open spec fn bytes_of(bytes: Option<Vec<u8>>) -> Option<Seq<u8>> {
    match bytes {
        Some(b) => Some(b@),
        None => None,
    }
}

/// The name of an interface.
pub fn link_name(link: &Link) -> (r: Option<String>)
    ensures
        text_of(r) == link.name(),
{
    let ghost all = link.attributes@;
    let mut i: usize = 0;
    assert(all.skip(0) =~= all);
    while i < link.attributes.len()
        invariant
            i <= link.attributes.len(),
            all == link.attributes@,
            first_name(all) == first_name(all.skip(i as int)),
        decreases link.attributes.len() - i,
    {
        if let LinkAttribute::IfName(name) = &link.attributes[i] {
            return Some(name.clone());
        }
        assert(all.skip(i as int).drop_first() =~= all.skip(i + 1));
        i = i + 1;
    }
    None
}

/// Whether an interface has a name.
pub fn link_has_name(link: &Link, name: &String) -> (r: bool)
    ensures
        r == link.has_name(name@),
{
    let mut i: usize = 0;
    while i < link.attributes.len()
        invariant
            i <= link.attributes.len(),
            forall|j: int|
                0 <= j < i ==> !#[trigger] is_name(link.attributes@[j], name@),
        decreases link.attributes.len() - i,
    {
        if let LinkAttribute::IfName(own) = &link.attributes[i] {
            if own.eq(name) {
                assert(is_name(link.attributes@[i as int], name@));
                return true;
            }
        }
        assert(!is_name(link.attributes@[i as int], name@));
        i = i + 1;
    }
    false
}

/// The index of the bridge to which an interface belongs.
pub fn current_controller_index(link: &Link) -> (r: Option<u32>)
    ensures
        r == link.controller(),
{
    let ghost all = link.attributes@;
    let mut i: usize = 0;
    assert(all.skip(0) =~= all);
    while i < link.attributes.len()
        invariant
            i <= link.attributes.len(),
            all == link.attributes@,
            first_controller(all) == first_controller(all.skip(i as int)),
        decreases link.attributes.len() - i,
    {
        if let LinkAttribute::Controller(index) = &link.attributes[i] {
            if *index != 0 {
                return Some(*index);
            }
        }
        assert(all.skip(i as int).drop_first() =~= all.skip(i + 1));
        i = i + 1;
    }
    None
}

/// The hardware address of an interface.
pub fn link_mac(link: &Link) -> (r: Option<Vec<u8>>)
    ensures
        bytes_of(r) == link.mac(),
{
    let ghost all = link.attributes@;
    let mut i: usize = 0;
    assert(all.skip(0) =~= all);
    while i < link.attributes.len()
        invariant
            i <= link.attributes.len(),
            all == link.attributes@,
            first_address(all) == first_address(all.skip(i as int)),
        decreases link.attributes.len() - i,
    {
        if let LinkAttribute::Address(address) = &link.attributes[i] {
            if address.len() > 0 {
                let copy = address.clone();
                assert(copy@ =~= address@);
                return Some(copy);
            }
        }
        assert(all.skip(i as int).drop_first() =~= all.skip(i + 1));
        i = i + 1;
    }
    None
}

/// Whether some interface has the name.
pub open spec fn any_named(links: Seq<Link>, name: Seq<char>) -> bool {
    exists|i: int| 0 <= i < links.len() && #[trigger] links[i].has_name(name)
}

/// Whether interface `i` is the only one with the name.
pub open spec fn is_only_named(links: Seq<Link>, name: Seq<char>, i: int) -> bool {
    &&& 0 <= i < links.len()
    &&& links[i].has_name(name)
    &&& forall|j: int| 0 <= j < links.len() && j != i ==> !#[trigger] links[j].has_name(name)
}

/// Whether the interface is the only one with the name.
pub open spec fn is_the_one_named(links: Seq<Link>, name: Seq<char>, link: Link) -> bool {
    exists|i: int| #[trigger] is_only_named(links, name, i) && links[i] == link
}

/// The search for the interface of a name among interfaces that come one at a time.
pub struct LinkSearch {
    name: String,
    matched: Option<Link>,
    seen: Ghost<Seq<Link>>,
}

impl LinkSearch {
    /// The name that is looked for.
    pub closed spec fn name(self) -> Seq<char> {
        self.name@
    }

    /// The interfaces that came so far.
    pub closed spec fn seen(self) -> Seq<Link> {
        self.seen@
    }

    #[verifier::type_invariant]
    spec fn sound(self) -> bool {
        match self.matched {
            Some(link) => is_the_one_named(self.seen@, self.name@, link),
            None => !any_named(self.seen@, self.name@),
        }
    }

    /// A search to which no interface came.
    pub fn new(name: &str) -> (r: LinkSearch)
        ensures
            r.name() == name@,
            r.seen() == Seq::<Link>::empty(),
    {
        LinkSearch { name: name.to_owned(), matched: None, seen: Ghost(Seq::empty()) }
    }

    /// Takes one more interface into account. It is an error if it is the second of that name.
    pub fn offer(self, link: Link) -> (r: Result<LinkSearch, NetworkError>)
        ensures
            r is Err <==> link.has_name(self.name()) && any_named(self.seen(), self.name()),
            r matches Ok(next) ==> next.name() == self.name() && next.seen() == self.seen().push(
                link,
            ),
            r matches Err(error) ==> error matches NetworkError::DuplicateInterface { name } && name@
                == self.name(),
    {
        proof {
            use_type_invariant(&self);
        }
        let ghost before = self.seen@;
        let ghost now = before.push(link);
        let ghost name = self.name@;
        let ghost matched = self.matched;
        proof {
            assert(forall|j: int| 0 <= j < before.len() ==> now[j] == before[j]);
            assert(now[before.len() as int] == link);
        }
        if !link_has_name(&link, &self.name) {
            proof {
                match matched {
                    Some(found) => {
                        let i = choose|i: int| #[trigger]
                            is_only_named(before, name, i) && before[i] == found;
                        assert(is_only_named(now, name, i));
                        assert(is_the_one_named(now, name, found));
                    },
                    None => {
                        assert(!any_named(now, name)) by {
                            if any_named(now, name) {
                                let i = choose|i: int|
                                    0 <= i < now.len() && #[trigger] now[i].has_name(name);
                                assert(before[i].has_name(name));
                            }
                        }
                    },
                }
            }
            return Ok(LinkSearch { name: self.name, matched: self.matched, seen: Ghost(now) });
        }
        match self.matched {
            Some(_) => Err(NetworkError::DuplicateInterface { name: self.name }),
            None => {
                assert(is_only_named(now, name, before.len() as int)) by {
                    assert forall|j: int| 0 <= j < now.len() && j != before.len() implies !#[trigger] now[j].has_name(
                        name,
                    ) by {
                        assert(!before[j].has_name(name));
                    }
                }
                assert(is_the_one_named(now, name, link));
                Ok(LinkSearch { name: self.name, matched: Some(link), seen: Ghost(now) })
            },
        }
    }
}

/// The interface that has the name, if one has.
pub fn link_by_name_optional(search: LinkSearch) -> (r: Option<Link>)
    ensures
        r matches Some(link) ==> is_the_one_named(search.seen(), search.name(), link),
        r is None ==> !any_named(search.seen(), search.name()),
{
    proof {
        use_type_invariant(&search);
    }
    search.matched
}

/// The interface that has the name. It is an error if none has.
pub fn link_by_name(search: LinkSearch) -> (r: Result<Link, NetworkError>)
    ensures
        r matches Ok(link) ==> is_the_one_named(search.seen(), search.name(), link),
        r is Err <==> !any_named(search.seen(), search.name()),
        r matches Err(error) ==> error matches NetworkError::InterfaceNotFound { name } && name@
            == search.name(),
{
    proof {
        use_type_invariant(&search);
    }
    match search.matched {
        Some(link) => Ok(link),
        None => Err(NetworkError::InterfaceNotFound { name: search.name }),
    }
}

/// The interface that was found by its index. It is an error if another one was found too.
pub fn link_by_index_optional(first: Option<Link>, found_another: bool, index: u32) -> (r: Result<
    Option<Link>,
    NetworkError,
>)
    ensures
        first is Some && found_another ==> r == Err::<Option<Link>, NetworkError>(
            NetworkError::DuplicateIndex { index },
        ),
        !(first is Some && found_another) ==> r == Ok::<Option<Link>, NetworkError>(first),
{
    match first {
        Some(link) => if found_another {
            Err(NetworkError::DuplicateIndex { index })
        } else {
            Ok(Some(link))
        },
        None => Ok(None),
    }
}

/// The name of an interface is the first of its names, and it has every one of its names.
pub proof fn the_name_is_the_first_name(link: Link, i: int, name: String)
    requires
        0 <= i < link.attributes@.len(),
        link.attributes@[i] == LinkAttribute::IfName(name),
        forall|j: int| 0 <= j < i ==> !(#[trigger] link.attributes@[j] is IfName),
    ensures
        link.name() == Some(name@),
        link.has_name(name@),
{
    first_name_at(link.attributes@, i, name);
    assert(is_name(link.attributes@[i], name@));
}

proof fn first_name_at(attributes: Seq<LinkAttribute>, i: int, name: String)
    requires
        0 <= i < attributes.len(),
        attributes[i] == LinkAttribute::IfName(name),
        forall|j: int| 0 <= j < i ==> !(#[trigger] attributes[j] is IfName),
    ensures
        first_name(attributes) == Some(name@),
    decreases i,
{
    if i > 0 {
        assert(!(attributes[0] is IfName));
        first_name_at(attributes.drop_first(), i - 1, name);
    }
}

/// An interface has a name exactly where one of its attributes is that name; without any name it
/// is called nothing.
pub proof fn a_name_is_one_of_the_attributes(link: Link, name: Seq<char>)
    ensures
        link.has_name(name) <==> exists|i: int|
            0 <= i < link.attributes@.len() && (#[trigger] link.attributes@[i] matches
                LinkAttribute::IfName(own) && own@ == name),
        (forall|i: int| 0 <= i < link.attributes@.len() ==> !(#[trigger] link.attributes@[i] is IfName))
            ==> link.name() is None,
{
    if exists|i: int|
        0 <= i < link.attributes@.len() && (#[trigger] link.attributes@[i] matches
            LinkAttribute::IfName(own) && own@ == name) {
        let i = choose|i: int|
            0 <= i < link.attributes@.len() && (#[trigger] link.attributes@[i] matches
                LinkAttribute::IfName(own) && own@ == name);
        assert(is_name(link.attributes@[i], name));
    }
    if link.has_name(name) {
        let i = choose|i: int|
            0 <= i < link.attributes@.len() && #[trigger] is_name(link.attributes@[i], name);
        assert(link.attributes@[i] matches LinkAttribute::IfName(own) && own@ == name);
    }
    if forall|i: int| 0 <= i < link.attributes@.len() ==> !(#[trigger] link.attributes@[i] is IfName) {
        no_first_name(link.attributes@);
    }
}

proof fn no_first_name(attributes: Seq<LinkAttribute>)
    requires
        forall|i: int| 0 <= i < attributes.len() ==> !(#[trigger] attributes[i] is IfName),
    ensures
        first_name(attributes) is None,
    decreases attributes.len(),
{
    if attributes.len() > 0 {
        assert(!(attributes[0] is IfName));
        no_first_name(attributes.drop_first());
    }
}

/// Whether the attribute names a bridge: an index of zero names none.
pub open spec fn names_a_bridge(attribute: LinkAttribute) -> bool {
    attribute matches LinkAttribute::Controller(index) && index != 0
}

/// The bridge of an interface is the first that its attributes name.
pub proof fn the_bridge_is_the_first_controller_that_is_not_zero(link: Link, i: int, index: u32)
    requires
        0 <= i < link.attributes@.len(),
        link.attributes@[i] == LinkAttribute::Controller(index),
        index != 0,
        forall|j: int| 0 <= j < i ==> !names_a_bridge(#[trigger] link.attributes@[j]),
    ensures
        link.controller() == Some(index),
{
    first_controller_at(link.attributes@, i, index);
}

proof fn first_controller_at(attributes: Seq<LinkAttribute>, i: int, index: u32)
    requires
        0 <= i < attributes.len(),
        attributes[i] == LinkAttribute::Controller(index),
        index != 0,
        forall|j: int| 0 <= j < i ==> !names_a_bridge(#[trigger] attributes[j]),
    ensures
        first_controller(attributes) == Some(index),
    decreases i,
{
    if i > 0 {
        assert(!names_a_bridge(attributes[0]));
        first_controller_at(attributes.drop_first(), i - 1, index);
    }
}

/// An interface whose attributes name no bridge belongs to none.
pub proof fn without_a_controller_there_is_no_bridge(link: Link)
    requires
        forall|i: int|
            0 <= i < link.attributes@.len() ==> !names_a_bridge(#[trigger] link.attributes@[i]),
    ensures
        link.controller() is None,
{
    no_first_controller(link.attributes@);
}

proof fn no_first_controller(attributes: Seq<LinkAttribute>)
    requires
        forall|i: int| 0 <= i < attributes.len() ==> !names_a_bridge(#[trigger] attributes[i]),
    ensures
        first_controller(attributes) is None,
    decreases attributes.len(),
{
    if attributes.len() > 0 {
        assert(!names_a_bridge(attributes[0]));
        no_first_controller(attributes.drop_first());
    }
}

/// Whether the attribute is a hardware address: an empty one is none.
pub open spec fn is_hardware_address(attribute: LinkAttribute) -> bool {
    attribute matches LinkAttribute::Address(address) && address@.len() > 0
}

/// The hardware address of an interface is the first of its addresses that is not empty.
pub proof fn the_hardware_address_is_the_first_that_is_not_empty(
    link: Link,
    i: int,
    address: Vec<u8>,
)
    requires
        0 <= i < link.attributes@.len(),
        link.attributes@[i] == LinkAttribute::Address(address),
        address@.len() > 0,
        forall|j: int| 0 <= j < i ==> !is_hardware_address(#[trigger] link.attributes@[j]),
    ensures
        link.mac() == Some(address@),
{
    first_address_at(link.attributes@, i, address);
}

proof fn first_address_at(attributes: Seq<LinkAttribute>, i: int, address: Vec<u8>)
    requires
        0 <= i < attributes.len(),
        attributes[i] == LinkAttribute::Address(address),
        address@.len() > 0,
        forall|j: int| 0 <= j < i ==> !is_hardware_address(#[trigger] attributes[j]),
    ensures
        first_address(attributes) == Some(address@),
    decreases i,
{
    if i > 0 {
        assert(!is_hardware_address(attributes[0]));
        first_address_at(attributes.drop_first(), i - 1, address);
    }
}

/// An interface all of whose addresses are empty has no hardware address.
pub proof fn without_an_address_there_is_no_hardware_address(link: Link)
    requires
        forall|i: int|
            0 <= i < link.attributes@.len() ==> !is_hardware_address(#[trigger] link.attributes@[i]),
    ensures
        link.mac() is None,
{
    no_first_address(link.attributes@);
}

proof fn no_first_address(attributes: Seq<LinkAttribute>)
    requires
        forall|i: int| 0 <= i < attributes.len() ==> !is_hardware_address(#[trigger] attributes[i]),
    ensures
        first_address(attributes) is None,
    decreases attributes.len(),
{
    if attributes.len() > 0 {
        assert(!is_hardware_address(attributes[0]));
        no_first_address(attributes.drop_first());
    }
}

/// An interface that was found by its name is one of those that were offered, it has the name, and
/// no other one that was offered has it.
pub proof fn the_interface_that_is_found_is_the_only_one(
    links: Seq<Link>,
    name: Seq<char>,
    link: Link,
)
    ensures
        is_the_one_named(links, name, link) <==> exists|i: int|
            {
                &&& 0 <= i < links.len()
                &&& links[i] == link
                &&& #[trigger] links[i].has_name(name)
                &&& forall|j: int|
                    0 <= j < links.len() && #[trigger] links[j].has_name(name) ==> j == i
            },
        any_named(links, name) <==> exists|i: int|
            0 <= i < links.len() && #[trigger] links[i].has_name(name),
{
    if is_the_one_named(links, name, link) {
        let i = choose|i: int| #[trigger] is_only_named(links, name, i) && links[i] == link;
        assert(links[i].has_name(name));
    }
    if exists|i: int|
        {
            &&& 0 <= i < links.len()
            &&& links[i] == link
            &&& #[trigger] links[i].has_name(name)
            &&& forall|j: int| 0 <= j < links.len() && #[trigger] links[j].has_name(name) ==> j == i
        } {
        let i = choose|i: int|
            {
                &&& 0 <= i < links.len()
                &&& links[i] == link
                &&& #[trigger] links[i].has_name(name)
                &&& forall|j: int|
                    0 <= j < links.len() && #[trigger] links[j].has_name(name) ==> j == i
            };
        assert(is_only_named(links, name, i));
    }
}

/// What an optional text or an optional list of bytes holds.
pub proof fn optional_values_hold_what_they_hold(text: String, bytes: Vec<u8>)
    ensures
        text_of(Some(text)) == Some(text@),
        text_of(None) is None,
        bytes_of(Some(bytes)) == Some(bytes@),
        bytes_of(None) is None,
{
}

} // verus!
