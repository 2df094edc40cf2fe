//! Compiling WGSL shaders to SPIR-V with naga, and moving SPIR-V words to
//! and from the bytes of a file.

use vstd::prelude::*;
use crate::text::{chars_of, rfind, rfind_char};

verus! {

/// Whether naga's WGSL front end accepts `code`.
pub uninterp spec fn wgsl_parses(code: Seq<char>) -> bool;

/// Whether naga's validator, with every validation flag and capability,
/// accepts the module the front end makes of `code`.
pub uninterp spec fn wgsl_validates(code: Seq<char>) -> bool;

/// The SPIR-V words, of language version `major.minor`, that naga's writer
/// makes of the validated module of `code`; none when the writer fails.
/// The writer's default flags add debug output when naga is built with
/// debug assertions, so a debug build and a release build write different
/// words for one source; within one build the words depend on the
/// arguments alone.
pub uninterp spec fn wgsl_spirv(code: Seq<char>, major: u8, minor: u8) -> Option<Seq<u32>>;

/// Compiles WGSL source with naga: `naga::front::wgsl::parse_str`, then
/// `naga::valid::Validator::validate` with every validation flag and
/// capability, then `naga::back::spv::write_vec` with language version
/// `major.minor`, naga's default options otherwise and no pipeline
/// options. The first stage that fails gives its error, with naga's
/// description of it; the contract ties each stage's verdict, and the
/// words written, to the source text, and says nothing of the description.
#[verifier::external_body]
fn compile_to_words(code: &str, major: u8, minor: u8) -> (r: Result<Vec<u32>, (CompileError, String)>)
    ensures
        !wgsl_parses(code@) ==> r matches Err((CompileError::Parse, _)),
        wgsl_parses(code@) && !wgsl_validates(code@) ==> r matches Err((CompileError::Validation, _)),
        wgsl_parses(code@) && wgsl_validates(code@) && wgsl_spirv(code@, major, minor) is None ==> r
            matches Err((CompileError::Write, _)),
        wgsl_parses(code@) && wgsl_validates(code@) && wgsl_spirv(code@, major, minor) is Some ==> r is Ok
            && r.unwrap()@ == wgsl_spirv(code@, major, minor).unwrap(),
{
    let module = match naga::front::wgsl::parse_str(code) {
        Ok(module) => module,
        Err(e) => return Err((CompileError::Parse, format!("{e}"))),
    };
    let mut validator = naga::valid::Validator::new(naga::valid::ValidationFlags::all(), naga::valid::Capabilities::all());
    let info = match validator.validate(&module) {
        Ok(info) => info,
        Err(e) => return Err((CompileError::Validation, format!("{e}"))),
    };
    let options = naga::back::spv::Options { lang_version: (major, minor), ..Default::default() };
    match naga::back::spv::write_vec(&module, &info, &options, None) {
        Ok(words) => Ok(words),
        Err(e) => Err((CompileError::Write, format!("{e}"))),
    }
}

/// The two byte orders a machine can store a word in.
#[derive(Clone, Copy, Debug, PartialEq, Eq, Structural)]
pub enum ByteOrder {
    /// Least significant byte first.
    Little,
    /// Most significant byte first.
    Big,
}

/// The bytes of `x`, least significant first.
pub open spec fn le_bytes(x: u32) -> Seq<u8> {
    seq![(x % 0x100) as u8, ((x / 0x100) % 0x100) as u8, ((x / 0x10000) % 0x100) as u8, (x / 0x1000000) as u8]
}

/// The bytes of `x`, most significant first.
pub open spec fn be_bytes(x: u32) -> Seq<u8> {
    seq![(x / 0x1000000) as u8, ((x / 0x10000) % 0x100) as u8, ((x / 0x100) % 0x100) as u8, (x % 0x100) as u8]
}

/// The four bytes of `x` in byte order `order`.
pub open spec fn word_bytes(x: u32, order: ByteOrder) -> Seq<u8> {
    match order {
        ByteOrder::Little => le_bytes(x),
        ByteOrder::Big => be_bytes(x),
    }
}

/// The word whose bytes, least significant first, are `b0 b1 b2 b3`.
pub open spec fn le_word(b0: u8, b1: u8, b2: u8, b3: u8) -> u32 {
    (b0 + 0x100 * b1 + 0x10000 * b2 + 0x1000000 * b3) as u32
}

/// The word stored in the four bytes `b` in byte order `order`.
pub open spec fn bytes_word(b: Seq<u8>, order: ByteOrder) -> u32 {
    match order {
        ByteOrder::Little => le_word(b[0], b[1], b[2], b[3]),
        ByteOrder::Big => le_word(b[3], b[2], b[1], b[0]),
    }
}

/// `bytes` holds `words`, each as its four bytes in byte order `order`.
pub open spec fn encodes(words: Seq<u32>, bytes: Seq<u8>, order: ByteOrder) -> bool {
    &&& bytes.len() == 4 * words.len()
    &&& forall|k: int| 0 <= k < words.len() ==> bytes.subrange(4 * k, 4 * k + 4) == word_bytes(#[trigger] words[k], order)
}

/// `words` are read from `bytes`, each from four bytes in byte order
/// `order`; bytes after the last whole word are left out.
pub open spec fn decodes(bytes: Seq<u8>, words: Seq<u32>, order: ByteOrder) -> bool {
    &&& words.len() == bytes.len() / 4
    &&& forall|k: int| 0 <= k < words.len() ==> #[trigger] words[k] == bytes_word(bytes.subrange(4 * k, 4 * k + 4), order)
}

/// `u32::to_ne_bytes`: the memory representation of `x` in the machine's
/// byte order, which is little or big endian.
#[verifier::external_body]
fn u32_to_ne_bytes(x: u32) -> (r: [u8; 4])
    ensures
        r@ == le_bytes(x) || r@ == be_bytes(x),
{
    x.to_ne_bytes()
}

/// The word whose stored bytes tell the machine's byte order apart.
pub const BYTE_ORDER_PROBE: u32 = 0x0102_0304;

/// The byte order in which `b` holds the word `BYTE_ORDER_PROBE`.
pub fn byte_order_of(b: [u8; 4]) -> (r: ByteOrder)
    requires
        b@ == le_bytes(BYTE_ORDER_PROBE) || b@ == be_bytes(BYTE_ORDER_PROBE),
    ensures
        (r == ByteOrder::Little) <==> b@ == le_bytes(BYTE_ORDER_PROBE),
        (r == ByteOrder::Big) <==> b@ == be_bytes(BYTE_ORDER_PROBE),
        b@ == word_bytes(BYTE_ORDER_PROBE, r),
{
    if b[0] == 4 {
        assert(b@ != be_bytes(BYTE_ORDER_PROBE));
        ByteOrder::Little
    } else {
        assert(b@ != le_bytes(BYTE_ORDER_PROBE));
        ByteOrder::Big
    }
}

/// The byte order of the machine this runs on: the order in which it
/// stores `BYTE_ORDER_PROBE`. Which of the two that is depends on the
/// machine alone; passing the one value it gives to both `words_to_bytes`
/// and `bytes_to_words` makes them undo each other.
pub fn native_byte_order() -> (r: ByteOrder) {
    byte_order_of(u32_to_ne_bytes(BYTE_ORDER_PROBE))
}

/// The four bytes of `x` in byte order `order`.
fn word_to_bytes(x: u32, order: ByteOrder) -> (r: [u8; 4])
    ensures
        r@ == word_bytes(x, order),
{
    let b0 = (x % 0x100) as u8;
    let b1 = ((x / 0x100) % 0x100) as u8;
    let b2 = ((x / 0x10000) % 0x100) as u8;
    let b3 = (x / 0x1000000) as u8;
    let r = match order {
        ByteOrder::Little => [b0, b1, b2, b3],
        ByteOrder::Big => [b3, b2, b1, b0],
    };
    assert(r@ =~= word_bytes(x, order));
    r
}

/// The word whose bytes, least significant first, are `b0 b1 b2 b3`.
fn word_of_le(b0: u8, b1: u8, b2: u8, b3: u8) -> (r: u32)
    ensures
        r == le_word(b0, b1, b2, b3),
{
    assert(b0 + 0x100 * b1 + 0x10000 * b2 + 0x1000000 * b3 <= u32::MAX) by (nonlinear_arith)
        requires
            b0 <= 0xff,
            b1 <= 0xff,
            b2 <= 0xff,
            b3 <= 0xff,
    ;
    b0 as u32 + 0x100 * (b1 as u32) + 0x10000 * (b2 as u32) + 0x1000000 * (b3 as u32)
}

/// Reading back the bytes of a word gives the word.
pub proof fn lemma_word_round_trip(x: u32, order: ByteOrder)
    ensures
        bytes_word(word_bytes(x, order), order) == x,
{
    assert(le_word((x % 0x100) as u8, ((x / 0x100) % 0x100) as u8, ((x / 0x10000) % 0x100) as u8, (x / 0x1000000) as u8) == x)
        by (bit_vector);
}

/// Writing back a word read from four bytes gives those bytes.
pub proof fn lemma_bytes_round_trip(b: Seq<u8>, order: ByteOrder)
    requires
        b.len() == 4,
    ensures
        word_bytes(bytes_word(b, order), order) == b,
{
    let (b0, b1, b2, b3) = (b[0], b[1], b[2], b[3]);
    let w = le_word(b0, b1, b2, b3);
    assert(w % 0x100 == b0 && (w / 0x100) % 0x100 == b1 && (w / 0x10000) % 0x100 == b2 && w / 0x1000000 == b3)
        by (bit_vector)
        requires
            w == (b0 + 0x100 * b1 + 0x10000 * b2 + 0x1000000 * b3) as u32,
    ;
    let v = le_word(b3, b2, b1, b0);
    assert(v % 0x100 == b3 && (v / 0x100) % 0x100 == b2 && (v / 0x10000) % 0x100 == b1 && v / 0x1000000 == b0)
        by (bit_vector)
        requires
            v == (b3 + 0x100 * b2 + 0x10000 * b1 + 0x1000000 * b0) as u32,
    ;
    assert(word_bytes(bytes_word(b, order), order) =~= b);
}

/// Decoding undoes encoding: the words held in `bytes` in byte order
/// `order` are read back from `bytes` in that order, and nothing else is.
pub proof fn lemma_decode_encoded(words: Seq<u32>, bytes: Seq<u8>, order: ByteOrder, read: Seq<u32>)
    requires
        encodes(words, bytes, order),
        decodes(bytes, read, order),
    ensures
        read == words,
{
    assert forall|k: int| 0 <= k < words.len() implies read[k] == words[k] by {
        lemma_word_round_trip(words[k], order);
        assert(read[k] == bytes_word(bytes.subrange(4 * k, 4 * k + 4), order));
    }
    assert(read =~= words);
}

/// Encoding undoes decoding when `bytes` holds whole words: the words read
/// from `bytes` in byte order `order` are stored in `bytes` in that order.
pub proof fn lemma_encode_decoded(bytes: Seq<u8>, words: Seq<u32>, order: ByteOrder)
    requires
        decodes(bytes, words, order),
        bytes.len() % 4 == 0,
    ensures
        encodes(words, bytes, order),
{
    assert forall|k: int| 0 <= k < words.len() implies bytes.subrange(4 * k, 4 * k + 4) == word_bytes(
        #[trigger] words[k],
        order,
    ) by {
        lemma_bytes_round_trip(bytes.subrange(4 * k, 4 * k + 4), order);
    }
}

/// Why a shader did not compile.
#[derive(Clone, Copy, Debug, PartialEq, Eq, Structural)]
pub enum CompileError {
    /// The source is not valid WGSL.
    Parse,
    /// The module failed validation.
    Validation,
    /// The module could not be written as SPIR-V.
    Write,
}

/// The SPIR-V version shaders are compiled for.
pub const SPIRV_MAJOR: u8 = 1;
pub const SPIRV_MINOR: u8 = 5;

/// The bytes of `words` as a file holds them: each word as its four bytes
/// in byte order `order`.
pub fn words_to_bytes(words: &[u32], order: ByteOrder) -> (r: Vec<u8>)
    ensures
        encodes(words@, r@, order),
{
    let mut r: Vec<u8> = Vec::new();
    let mut i: usize = 0;
    while i < words.len()
        invariant
            i <= words@.len(),
            r@.len() == 4 * i,
            forall|k: int| 0 <= k < i ==> r@.subrange(4 * k, 4 * k + 4) == word_bytes(#[trigger] words@[k], order),
        decreases words@.len() - i,
    {
        let b = word_to_bytes(words[i], order);
        let ghost before = r@;
        r.push(b[0]);
        r.push(b[1]);
        r.push(b[2]);
        r.push(b[3]);
        assert forall|k: int| 0 <= k < i + 1 implies r@.subrange(4 * k, 4 * k + 4) == word_bytes(
            #[trigger] words@[k],
            order,
        ) by {
            if k < i {
                assert(r@.subrange(4 * k, 4 * k + 4) =~= before.subrange(4 * k, 4 * k + 4));
            } else {
                assert(r@.subrange(4 * k, 4 * k + 4) =~= b@);
            }
        }
        i = i + 1;
    }
    r
}

/// The words of a SPIR-V file: each four bytes read in byte order `order`;
/// bytes after the last whole word are left out.
pub fn bytes_to_words(bytes: &[u8], order: ByteOrder) -> (r: Vec<u32>)
    ensures
        decodes(bytes@, r@, order),
{
    let len = bytes.len();
    let n = len / 4;
    let mut r: Vec<u32> = Vec::new();
    let mut i: usize = 0;
    while i < n
        invariant
            len == bytes@.len(),
            n == len / 4,
            i <= n,
            r@.len() == i,
            forall|k: int| 0 <= k < i ==> #[trigger] r@[k] == bytes_word(bytes@.subrange(4 * k, 4 * k + 4), order),
        decreases n - i,
    {
        assert(4 * i + 4 <= len) by (nonlinear_arith)
            requires
                i < n,
                n == len / 4,
        ;
        let (b0, b1, b2, b3) = (bytes[4 * i], bytes[4 * i + 1], bytes[4 * i + 2], bytes[4 * i + 3]);
        let w = match order {
            ByteOrder::Little => word_of_le(b0, b1, b2, b3),
            ByteOrder::Big => word_of_le(b3, b2, b1, b0),
        };
        assert(w == bytes_word(bytes@.subrange(4 * i as int, 4 * i + 4), order));
        r.push(w);
        i = i + 1;
    }
    r
}

/// The outcome of compiling `code` to SPIR-V `major.minor`: the first
/// stage that fails gives its error, otherwise the words written.
pub open spec fn spec_compile(code: Seq<char>, major: u8, minor: u8) -> Result<Seq<u32>, CompileError> {
    if !wgsl_parses(code) {
        Err(CompileError::Parse)
    } else if !wgsl_validates(code) {
        Err(CompileError::Validation)
    } else {
        match wgsl_spirv(code, major, minor) {
            None => Err(CompileError::Write),
            Some(words) => Ok(words),
        }
    }
}

/// Why a shader did not compile: the stage that failed, and naga's
/// description of the failure.
#[derive(Debug)]
pub struct CompileFailure {
    pub stage: CompileError,
    pub message: String,
}

/// Compiles WGSL source to the bytes of a SPIR-V 1.5 file: the words naga
/// writes, each as its four bytes in byte order `order`. A source naga
/// does not parse is a parse error; a module that fails validation, or
/// that cannot be written, gives those errors.
pub fn compile_wgsl_in(code: &str, order: ByteOrder) -> (r: Result<Vec<u8>, CompileFailure>)
    ensures
        match spec_compile(code@, SPIRV_MAJOR, SPIRV_MINOR) {
            Err(e) => r matches Err(f) && f.stage == e,
            Ok(words) => r matches Ok(bytes) && encodes(words, bytes@, order),
        },
{
    match compile_to_words(code, SPIRV_MAJOR, SPIRV_MINOR) {
        Ok(words) => Ok(words_to_bytes(words.as_slice(), order)),
        Err((stage, message)) => Err(CompileFailure { stage, message }),
    }
}

/// Compiles WGSL source to the bytes of a SPIR-V 1.5 file, in the byte
/// order of the machine this runs on.
pub fn compile_wgsl(code: &str) -> (r: Result<Vec<u8>, CompileFailure>)
    ensures
        match spec_compile(code@, SPIRV_MAJOR, SPIRV_MINOR) {
            Err(e) => r matches Err(f) && f.stage == e,
            Ok(words) => r matches Ok(bytes) && (encodes(words, bytes@, ByteOrder::Little) || encodes(
                words,
                bytes@,
                ByteOrder::Big,
            )),
        },
{
    compile_wgsl_in(code, native_byte_order())
}

/// A compiled shader reads back as the words naga wrote: bytes that
/// `compile_wgsl_in` made in byte order `order`, read in that same order,
/// give those words.
pub proof fn lemma_compiled_reads_back(code: Seq<char>, order: ByteOrder, bytes: Seq<u8>, read: Seq<u32>)
    requires
        spec_compile(code, SPIRV_MAJOR, SPIRV_MINOR) is Ok,
        encodes(spec_compile(code, SPIRV_MAJOR, SPIRV_MINOR).unwrap(), bytes, order),
        decodes(bytes, read, order),
    ensures
        read == spec_compile(code, SPIRV_MAJOR, SPIRV_MINOR).unwrap(),
{
    lemma_decode_encoded(spec_compile(code, SPIRV_MAJOR, SPIRV_MINOR).unwrap(), bytes, order, read);
}


/// The file name part of a shader path: what follows its last `/`. A path
/// without a `/` has none.
pub open spec fn spec_shader_file_name(path: Seq<char>) -> Option<Seq<char>> {
    match rfind(path, '/') {
        None => None,
        Some(p) => Some(path.skip(p + 1)),
    }
}

/// The file name part of `path`, after its last `/`.
pub fn shader_file_name(path: &str) -> (r: Option<&str>)
    ensures
        r matches Some(name) ==> spec_shader_file_name(path@) == Some(name@),
        r is None ==> spec_shader_file_name(path@) is None,
{
    let chars = chars_of(path);
    match rfind_char(chars.as_slice(), '/') {
        None => None,
        Some(p) => {
            proof {
                crate::shader_input::lemma_rfind_bounds(path@, '/');
            }
            let n = path.unicode_len();
            let name = path.substring_char(p + 1, n);
            assert(name@ =~= path@.skip(p + 1));
            Some(name)
        },
    }
}

/// Where the SPIR-V of shader file `file_name` is written.
pub fn spirv_output_path(file_name: &str) -> (r: String)
    ensures
        r@ == "target/dacho/shaders/"@ + file_name@ + ".spv"@,
{
    let mut r = String::from_str("target/dacho/shaders/");
    r.append(file_name);
    r.append(".spv");
    r
}

/// Where the compiled SPIR-V of shader `name` is cached.
pub fn cached_spirv_path(name: &str) -> (r: String)
    ensures
        r@ == "assets/.cache/shaders."@ + name@ + ".wgsl.spv"@,
{
    let mut r = String::from_str("assets/.cache/shaders.");
    r.append(name);
    r.append(".wgsl.spv");
    r
}

/// Number of `false` entries of `s`.
pub open spec fn failures(s: Seq<bool>) -> nat
    decreases s.len(),
{
    if s.len() == 0 {
        0
    } else {
        failures(s.drop_last()) + if s.last() { 0nat } else { 1nat }
    }
}

/// Number of shader compilations that failed.
pub fn failed_count(succeeded: &[bool]) -> (r: usize)
    ensures
        r == failures(succeeded@),
{
    let mut error_count: usize = 0;
    let mut i: usize = 0;
    assert(succeeded@.take(0) =~= Seq::<bool>::empty());
    while i < succeeded.len()
        invariant
            i <= succeeded@.len(),
            error_count == failures(succeeded@.take(i as int)),
            error_count <= i,
        decreases succeeded@.len() - i,
    {
        assert(succeeded@.take(i + 1).drop_last() =~= succeeded@.take(i as int));
        if !succeeded[i] {
            error_count = error_count + 1;
        }
        i = i + 1;
    }
    assert(succeeded@.take(i as int) =~= succeeded@);
    error_count
}

} // verus!
