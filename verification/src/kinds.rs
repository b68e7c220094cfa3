//! The numeric codes of the STUN protocol, and the methods, classes and
//! attribute kinds that they stand for.

use vstd::prelude::*;

verus! {

/// Magic cookie
pub const MAGIC_COOKIE: u32 = 0x2112A442;

// Methods
/// Binding method
pub const METHOD_BINDING: u16 = 0x0001;

// Classes
/// A constant that represents a class request
pub const CLASS_REQUEST: u16 = 0x0000;

/// A constant that represents a class indication
pub const CLASS_INDICATION: u16 = 0x0010;

/// A constant that represents a class success response
pub const CLASS_SUCCESS_RESPONSE: u16 = 0x0100;

/// A constant that represents a class error response
pub const CLASS_ERROR_RESPONSE: u16 = 0x0110;

/// The bits of the message type that hold the class.
pub const CLASS_MASK: u16 = 0x0110;

/// The bits of the message type that hold the method.
pub const METHOD_MASK: u16 = 0x3EEF;

/// STUN header size
pub const HEADER_BYTE_SIZE: usize = 20;

/// The size of a transaction id
pub const TRANSACTION_ID_BYTE_SIZE: usize = 12;

// STUN Attributes
/// MAPPED-ADDRESS attribute
pub const ATTR_MAPPED_ADDRESS: u16 = 0x0001;

/// XOR-MAPPED-ADDRESS attribute
pub const ATTR_XOR_MAPPED_ADDRESS: u16 = 0x0020;

/// ERROR-CODE attribute
pub const ATTR_ERROR_CODE: u16 = 0x0009;

/// SOFTWARE attribute
pub const ATTR_SOFTWARE: u16 = 0x8022;

// RFC 5780 NAT Behavior Discovery
/// OTHER-ADDRESS attribute
pub const ATTR_OTHER_ADDRESS: u16 = 0x802c;

/// CHANGE-REQUEST attribute
pub const ATTR_CHANGE_REQUEST: u16 = 0x0003;

/// RESPONSE-ORIGIN attribute
pub const ATTR_RESPONSE_ORIGIN: u16 = 0x802b;

/// The "change IP" flag for the CHANGE-REQUEST attribute.
pub const CHANGE_REQUEST_IP_FLAG: u32 = 0x00000004;

/// The "change port" flag for the CHANGE-REQUEST attribute.
pub const CHANGE_REQUEST_PORT_FLAG: u32 = 0x00000002;

/// The address family of IPv4 in an address attribute
pub const FAMILY_IPV4: u8 = 0x01;

/// The address family of IPv6 in an address attribute
pub const FAMILY_IPV6: u8 = 0x02;

/// Enum representing STUN method
#[derive(Clone, Copy, Debug, Eq, Hash, PartialEq, Structural)]
pub enum Method {
    Binding,
    Unknown(u16),
}

impl Method {
    /// The method that the code `method` stands for.
    pub open spec fn spec_from_u16(method: u16) -> Method {
        if method == METHOD_BINDING {
            Method::Binding
        } else {
            Method::Unknown(method)
        }
    }

    /// The code of the method.
    pub open spec fn spec_to_u16(&self) -> u16 {
        match self {
            Method::Binding => METHOD_BINDING,
            Method::Unknown(method) => *method,
        }
    }

    /// Whether the method is what decoding a message type can give: its code
    /// lies within the method bits, and a code with a name goes by the name.
    pub open spec fn canonical(&self) -> bool {
        match self {
            Method::Binding => true,
            Method::Unknown(method) => *method & METHOD_MASK == *method && *method
                != METHOD_BINDING,
        }
    }

    /// Convert from u16 to Method.
    #[verifier::when_used_as_spec(spec_from_u16)]
    pub fn from_u16(method: u16) -> (m: Self)
        ensures
            m == Self::spec_from_u16(method),
            m.spec_to_u16() == method,
    {
        match method {
            METHOD_BINDING => Self::Binding,
            _ => Self::Unknown(method),
        }
    }

    /// Convert from Method to u16.
    #[verifier::when_used_as_spec(spec_to_u16)]
    pub fn to_u16(&self) -> (code: u16)
        ensures
            code == self.spec_to_u16(),
    {
        match self {
            Self::Binding => METHOD_BINDING,
            Self::Unknown(method) => *method,
        }
    }
}

/// Enum representing STUN class
#[derive(Clone, Copy, Debug, Eq, Hash, PartialEq, Structural)]
pub enum Class {
    Request,
    Indication,
    SuccessResponse,
    ErrorResponse,
    Unknown(u16),
}

impl Class {
    /// The class that the code `class` stands for.
    pub open spec fn spec_from_u16(class: u16) -> Class {
        if class == CLASS_REQUEST {
            Class::Request
        } else if class == CLASS_INDICATION {
            Class::Indication
        } else if class == CLASS_SUCCESS_RESPONSE {
            Class::SuccessResponse
        } else if class == CLASS_ERROR_RESPONSE {
            Class::ErrorResponse
        } else {
            Class::Unknown(class)
        }
    }

    /// The code of the class.
    pub open spec fn spec_to_u16(&self) -> u16 {
        match self {
            Class::Request => CLASS_REQUEST,
            Class::Indication => CLASS_INDICATION,
            Class::SuccessResponse => CLASS_SUCCESS_RESPONSE,
            Class::ErrorResponse => CLASS_ERROR_RESPONSE,
            Class::Unknown(class) => *class,
        }
    }

    /// Whether the class is one of the four that a message type can hold.
    pub open spec fn canonical(&self) -> bool {
        !(self is Unknown)
    }

    /// Convert from u16 to Class.
    #[verifier::when_used_as_spec(spec_from_u16)]
    pub fn from_u16(class: u16) -> (c: Self)
        ensures
            c == Self::spec_from_u16(class),
            c.spec_to_u16() == class,
    {
        match class {
            CLASS_REQUEST => Self::Request,
            CLASS_INDICATION => Self::Indication,
            CLASS_SUCCESS_RESPONSE => Self::SuccessResponse,
            CLASS_ERROR_RESPONSE => Self::ErrorResponse,
            _ => Self::Unknown(class),
        }
    }

    /// Convert from Class to u16.
    #[verifier::when_used_as_spec(spec_to_u16)]
    pub fn to_u16(&self) -> (code: u16)
        ensures
            code == self.spec_to_u16(),
    {
        match self {
            Self::Request => CLASS_REQUEST,
            Self::Indication => CLASS_INDICATION,
            Self::SuccessResponse => CLASS_SUCCESS_RESPONSE,
            Self::ErrorResponse => CLASS_ERROR_RESPONSE,
            Self::Unknown(class) => *class,
        }
    }
}

/// Enum representing STUN attribute
#[derive(Clone, Copy, Debug, Eq, Hash, PartialEq, Structural)]
pub enum Attribute {
    MappedAddress,
    XORMappedAddress,
    Software,
    OtherAddress,
    ChangeRequest,
    ResponseOrigin,
    ErrorCode,
    Unknown(u16),
}

impl Attribute {
    /// The attribute kind that the code `attribute` stands for.
    pub open spec fn spec_from_u16(attribute: u16) -> Attribute {
        if attribute == ATTR_MAPPED_ADDRESS {
            Attribute::MappedAddress
        } else if attribute == ATTR_XOR_MAPPED_ADDRESS {
            Attribute::XORMappedAddress
        } else if attribute == ATTR_SOFTWARE {
            Attribute::Software
        } else if attribute == ATTR_OTHER_ADDRESS {
            Attribute::OtherAddress
        } else if attribute == ATTR_CHANGE_REQUEST {
            Attribute::ChangeRequest
        } else if attribute == ATTR_RESPONSE_ORIGIN {
            Attribute::ResponseOrigin
        } else if attribute == ATTR_ERROR_CODE {
            Attribute::ErrorCode
        } else {
            Attribute::Unknown(attribute)
        }
    }

    /// The code of the attribute kind.
    pub open spec fn spec_to_u16(&self) -> u16 {
        match self {
            Attribute::MappedAddress => ATTR_MAPPED_ADDRESS,
            Attribute::XORMappedAddress => ATTR_XOR_MAPPED_ADDRESS,
            Attribute::Software => ATTR_SOFTWARE,
            Attribute::OtherAddress => ATTR_OTHER_ADDRESS,
            Attribute::ChangeRequest => ATTR_CHANGE_REQUEST,
            Attribute::ResponseOrigin => ATTR_RESPONSE_ORIGIN,
            Attribute::ErrorCode => ATTR_ERROR_CODE,
            Attribute::Unknown(attribute) => *attribute,
        }
    }

    /// Convert from u16 to Attribute.
    #[verifier::when_used_as_spec(spec_from_u16)]
    pub fn from_u16(attribute: u16) -> (a: Self)
        ensures
            a == Self::spec_from_u16(attribute),
            a.spec_to_u16() == attribute,
    {
        match attribute {
            ATTR_MAPPED_ADDRESS => Self::MappedAddress,
            ATTR_XOR_MAPPED_ADDRESS => Self::XORMappedAddress,
            ATTR_SOFTWARE => Self::Software,
            ATTR_OTHER_ADDRESS => Self::OtherAddress,
            ATTR_CHANGE_REQUEST => Self::ChangeRequest,
            ATTR_RESPONSE_ORIGIN => Self::ResponseOrigin,
            ATTR_ERROR_CODE => Self::ErrorCode,
            _ => Self::Unknown(attribute),
        }
    }

    /// Convert from Attribute to u16.
    #[verifier::when_used_as_spec(spec_to_u16)]
    pub fn to_u16(&self) -> (code: u16)
        ensures
            code == self.spec_to_u16(),
    {
        match self {
            Self::MappedAddress => ATTR_MAPPED_ADDRESS,
            Self::XORMappedAddress => ATTR_XOR_MAPPED_ADDRESS,
            Self::Software => ATTR_SOFTWARE,
            Self::OtherAddress => ATTR_OTHER_ADDRESS,
            Self::ChangeRequest => ATTR_CHANGE_REQUEST,
            Self::ResponseOrigin => ATTR_RESPONSE_ORIGIN,
            Self::ErrorCode => ATTR_ERROR_CODE,
            Self::Unknown(attribute) => *attribute,
        }
    }
}

/// The message type, the first 16 bits of a header, of a class and a method.
pub open spec fn message_type(class: Class, method: Method) -> u16 {
    class.spec_to_u16() | method.spec_to_u16()
}

/// The class that a message type holds.
pub open spec fn class_of_message_type(message_type: u16) -> Class {
    Class::spec_from_u16(message_type & CLASS_MASK)
}

/// The method that a message type holds.
pub open spec fn method_of_message_type(message_type: u16) -> Method {
    Method::spec_from_u16(message_type & METHOD_MASK)
}

/// Packing a class and a method into a message type loses neither: from the
/// message type of one of the four classes and a method whose code lies
/// within the method bits, decoding gives back that class and that method.
pub proof fn lemma_message_type_roundtrip(class: Class, method: Method)
    requires
        class.canonical(),
        method.canonical(),
    ensures
        class_of_message_type(message_type(class, method)) == class,
        method_of_message_type(message_type(class, method)) == method,
{
    let c = class.spec_to_u16();
    let m = method.spec_to_u16();
    assert(m & 0x3EEF == m) by (bit_vector)
        requires
            m == 1 || m & 0x3EEF == m,
    ;
    assert((c | m) & 0x0110 == c && (c | m) & 0x3EEF == m) by (bit_vector)
        requires
            c == 0 || c == 0x10 || c == 0x100 || c == 0x110,
            m & 0x3EEF == m,
    ;
}

/// Whatever the message type, decoding gives one of the four classes and a
/// method whose code lies within the method bits, and packing those gives
/// back the message type without its two top bits.
pub proof fn lemma_message_type_decodes_canonical(bits: u16)
    ensures
        class_of_message_type(bits).canonical(),
        method_of_message_type(bits).canonical(),
        message_type(class_of_message_type(bits), method_of_message_type(bits)) == bits
            & 0x3FFF,
{
    let c = bits & 0x0110;
    let m = bits & 0x3EEF;
    assert(c == 0 || c == 0x10 || c == 0x100 || c == 0x110) by (bit_vector)
        requires
            c == bits & 0x0110,
    ;
    assert(m & 0x3EEF == m && (c | m) == bits & 0x3FFF) by (bit_vector)
        requires
            c == bits & 0x0110,
            m == bits & 0x3EEF,
    ;
}

} // verus!
