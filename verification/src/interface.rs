//! Cryptoki interface values: attribute, object-class, key-type,
//! mechanism and return-code constants, and the plain-value forms of the
//! template and mechanism parameter blocks that cross the interface.

use vstd::prelude::*;

verus! {

/* attribute ids */
pub const CKA_CLASS: u64 = 0x0000;
pub const CKA_TOKEN: u64 = 0x0001;
pub const CKA_PRIVATE: u64 = 0x0002;
pub const CKA_LABEL: u64 = 0x0003;
pub const CKA_UNIQUE_ID: u64 = 0x0004;
pub const CKA_APPLICATION: u64 = 0x0010;
pub const CKA_VALUE: u64 = 0x0011;
pub const CKA_OBJECT_ID: u64 = 0x0012;
pub const CKA_KEY_TYPE: u64 = 0x0100;
pub const CKA_ID: u64 = 0x0102;
pub const CKA_SENSITIVE: u64 = 0x0103;
pub const CKA_ENCRYPT: u64 = 0x0104;
pub const CKA_DECRYPT: u64 = 0x0105;
pub const CKA_WRAP: u64 = 0x0106;
pub const CKA_UNWRAP: u64 = 0x0107;
pub const CKA_SIGN: u64 = 0x0108;
pub const CKA_VERIFY: u64 = 0x010A;
pub const CKA_DERIVE: u64 = 0x010C;
pub const CKA_MODULUS: u64 = 0x0120;
pub const CKA_PUBLIC_EXPONENT: u64 = 0x0122;
pub const CKA_PRIVATE_EXPONENT: u64 = 0x0123;
pub const CKA_PRIME_1: u64 = 0x0124;
pub const CKA_PRIME_2: u64 = 0x0125;
pub const CKA_EXPONENT_1: u64 = 0x0126;
pub const CKA_EXPONENT_2: u64 = 0x0127;
pub const CKA_COEFFICIENT: u64 = 0x0128;
pub const CKA_VALUE_BITS: u64 = 0x0160;
pub const CKA_VALUE_LEN: u64 = 0x0161;
pub const CKA_EXTRACTABLE: u64 = 0x0162;
pub const CKA_LOCAL: u64 = 0x0163;
pub const CKA_NEVER_EXTRACTABLE: u64 = 0x0164;
pub const CKA_ALWAYS_SENSITIVE: u64 = 0x0165;
pub const CKA_KEY_GEN_MECHANISM: u64 = 0x0166;
pub const CKA_MODIFIABLE: u64 = 0x0170;
pub const CKA_COPYABLE: u64 = 0x0171;
pub const CKA_DESTROYABLE: u64 = 0x0172;

/* object classes */
pub const CKO_DATA: u64 = 0x0000;
pub const CKO_CERTIFICATE: u64 = 0x0001;
pub const CKO_PUBLIC_KEY: u64 = 0x0002;
pub const CKO_PRIVATE_KEY: u64 = 0x0003;
pub const CKO_SECRET_KEY: u64 = 0x0004;
pub const CKO_HW_FEATURE: u64 = 0x0005;
pub const CKO_DOMAIN_PARAMETERS: u64 = 0x0006;
pub const CKO_MECHANISM: u64 = 0x0007;
pub const CKO_OTP_KEY: u64 = 0x0008;
pub const CKO_PROFILE: u64 = 0x0009;
pub const CKO_VENDOR_DEFINED: u64 = 0x80000000;

/* key types */
pub const CKK_RSA: u64 = 0x0000;
pub const CKK_DSA: u64 = 0x0001;
pub const CKK_DH: u64 = 0x0002;
pub const CKK_EC: u64 = 0x0003;
pub const CKK_X9_42_DH: u64 = 0x0004;
pub const CKK_GENERIC_SECRET: u64 = 0x0010;
pub const CKK_AES: u64 = 0x001F;
pub const CKK_EC_EDWARDS: u64 = 0x0040;
pub const CKK_EC_MONTGOMERY: u64 = 0x0041;

/* mechanism ids */
pub const CKM_AES_KEY_GEN: u64 = 0x1080;
pub const CKM_AES_ECB: u64 = 0x1081;
pub const CKM_AES_CBC: u64 = 0x1082;
pub const CKM_AES_MAC: u64 = 0x1083;
pub const CKM_AES_MAC_GENERAL: u64 = 0x1084;
pub const CKM_AES_CBC_PAD: u64 = 0x1085;
pub const CKM_AES_CMAC_GENERAL: u64 = 0x108A;
pub const CKM_AES_CMAC: u64 = 0x108B;
pub const CKM_AES_ECB_ENCRYPT_DATA: u64 = 0x1104;
pub const CKM_AES_CBC_ENCRYPT_DATA: u64 = 0x1105;

/* mechanism info flags */
pub const CKF_ENCRYPT: u64 = 0x00000100;
pub const CKF_DECRYPT: u64 = 0x00000200;
pub const CKF_DIGEST: u64 = 0x00000400;
pub const CKF_SIGN: u64 = 0x00000800;
pub const CKF_VERIFY: u64 = 0x00002000;
pub const CKF_GENERATE: u64 = 0x00008000;
pub const CKF_WRAP: u64 = 0x00020000;
pub const CKF_UNWRAP: u64 = 0x00040000;
pub const CKF_DERIVE: u64 = 0x00080000;

/* return codes */
pub const CKR_OK: u64 = 0x0000;
pub const CKR_DATA_LEN_RANGE: u64 = 0x0021;
pub const CKR_ENCRYPTED_DATA_INVALID: u64 = 0x0040;
pub const CKR_ENCRYPTED_DATA_LEN_RANGE: u64 = 0x0041;
pub const CKR_SIGNATURE_INVALID: u64 = 0x00C0;
pub const CKR_SIGNATURE_LEN_RANGE: u64 = 0x00C1;
pub const CKR_GENERAL_ERROR: u64 = 0x0005;
pub const CKR_FUNCTION_FAILED: u64 = 0x0006;
pub const CKR_ATTRIBUTE_READ_ONLY: u64 = 0x0010;
pub const CKR_ATTRIBUTE_SENSITIVE: u64 = 0x0011;
pub const CKR_ATTRIBUTE_TYPE_INVALID: u64 = 0x0012;
pub const CKR_ATTRIBUTE_VALUE_INVALID: u64 = 0x0013;
pub const CKR_DEVICE_MEMORY: u64 = 0x0031;
pub const CKR_KEY_SIZE_RANGE: u64 = 0x0062;
pub const CKR_KEY_TYPE_INCONSISTENT: u64 = 0x0063;
pub const CKR_KEY_FUNCTION_NOT_PERMITTED: u64 = 0x0068;
pub const CKR_MECHANISM_INVALID: u64 = 0x0070;
pub const CKR_MECHANISM_PARAM_INVALID: u64 = 0x0071;
pub const CKR_OPERATION_ACTIVE: u64 = 0x0090;
pub const CKR_OPERATION_NOT_INITIALIZED: u64 = 0x0091;
pub const CKR_TEMPLATE_INCOMPLETE: u64 = 0x00D0;
pub const CKR_TEMPLATE_INCONSISTENT: u64 = 0x00D1;
pub const CKR_TOKEN_NOT_PRESENT: u64 = 0x00E0;
pub const CKR_BUFFER_TOO_SMALL: u64 = 0x0150;
pub const CKR_CRYPTOKI_NOT_INITIALIZED: u64 = 0x0190;

/// Length sentinel: reported where a value is unavailable, sensitive,
/// or of an attribute the object does not carry.
pub const CK_UNAVAILABLE_INFORMATION: u64 = 0xFFFFFFFFFFFFFFFF;
pub const CK_INVALID_HANDLE: u64 = 0;

/// One entry of a caller template, in plain-value form.
///
/// At the C interface an entry is `(type, pValue, ulValueLen)`.  Here
/// `value: None` stands for a null `pValue` (the length-query pass of
/// the two-pass convention), `Some(bytes)` for a buffer holding
/// `bytes`; `len` carries the buffer or value length in bytes, or the
/// `CK_UNAVAILABLE_INFORMATION` sentinel after a failed read-back.
#[derive(Debug, Clone)]
pub struct CkAttribute {
    pub id: u64,
    pub value: Option<Vec<u8>>,
    pub len: u64,
}

/// The mathematical model of a template entry.
pub struct CkAttrView {
    pub id: u64,
    pub value: Option<Seq<u8>>,
    pub len: u64,
}

impl View for CkAttribute {
    type V = CkAttrView;

    open spec fn view(&self) -> CkAttrView {
        CkAttrView {
            id: self.id,
            value: match self.value {
                Some(v) => Some(v@),
                None => None,
            },
            len: self.len,
        }
    }
}

/// Parameter block of a mechanism invocation, in plain-value form.
#[derive(Debug, Clone)]
pub enum CkMechParams {
    /// No parameter.
    Empty,
    /// `CK_KEY_DERIVATION_STRING_DATA { pData, ulLen }`.
    DerivationStringData(Vec<u8>),
    /// `CK_AES_CBC_ENCRYPT_DATA_PARAMS { iv[16], pData, length }`:
    /// the initialisation vector, then the data.
    AesCbcEncryptData(Vec<u8>, Vec<u8>),
    /// An initialisation vector alone (CBC family ciphers).
    Iv(Vec<u8>),
    /// `CK_MAC_GENERAL_PARAMS`: the requested MAC length in bytes.
    MacGeneral(u64),
}

/// The mathematical model of a parameter block.
pub enum MechParamsView {
    Empty,
    DerivationStringData(Seq<u8>),
    AesCbcEncryptData(Seq<u8>, Seq<u8>),
    Iv(Seq<u8>),
    MacGeneral(u64),
}

impl View for CkMechParams {
    type V = MechParamsView;

    open spec fn view(&self) -> MechParamsView {
        match self {
            CkMechParams::Empty => MechParamsView::Empty,
            CkMechParams::DerivationStringData(d) => MechParamsView::DerivationStringData(d@),
            CkMechParams::AesCbcEncryptData(iv, d) => MechParamsView::AesCbcEncryptData(iv@, d@),
            CkMechParams::Iv(iv) => MechParamsView::Iv(iv@),
            CkMechParams::MacGeneral(n) => MechParamsView::MacGeneral(*n),
        }
    }
}

/// A mechanism invocation: `CK_MECHANISM` in plain-value form.
#[derive(Debug, Clone)]
pub struct CkMechanism {
    pub mechanism: u64,
    pub params: CkMechParams,
}

/// The mathematical model of a mechanism invocation.
pub struct CkMechView {
    pub mechanism: u64,
    pub params: MechParamsView,
}

impl View for CkMechanism {
    type V = CkMechView;

    open spec fn view(&self) -> CkMechView {
        CkMechView { mechanism: self.mechanism, params: self.params@ }
    }
}

/// Capability summary of a mechanism: `CK_MECHANISM_INFO`.
#[derive(Debug, Clone, Copy, PartialEq, Eq, Structural)]
pub struct MechanismInfo {
    pub min_key_size: u64,
    pub max_key_size: u64,
    pub flags: u64,
}

} // verus!
