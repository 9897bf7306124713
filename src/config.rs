use vstd::prelude::*;

verus! {

/// The length of every rotor configuration, and of the plugboard and reflector
/// wirings, in a binary configuration: one entry per byte value.
pub const BYTE_CNT: usize = 256;

/// Why a binary configuration could not be written or read.
#[derive(Debug, Clone, Copy, PartialEq, Eq, Structural)]
pub enum ConfigError {
    /// A rotor configuration does not have 256 entries.
    RotorLengthMismatch,
    /// More than 255 rotors.
    TooManyRotors,
    /// The data ends before the configuration does.
    UnexpectedEof,
}

/// Concatenation of the rotor configurations `0 .. n`.
pub open spec fn concat_configs(rotors: Seq<Seq<u8>>, n: nat) -> Seq<u8>
    decreases n,
{
    if n == 0 {
        Seq::empty()
    } else {
        concat_configs(rotors, (n - 1) as nat) + rotors[n - 1]
    }
}

/// The binary configuration: a plugboard flag byte (1 or 0), the plugboard
/// wiring if any, the reflector wiring, the rotor count byte and the rotor
/// configurations in order.
pub open spec fn config_bytes(commutator: Option<Seq<u8>>, reflector: Seq<u8>, rotors: Seq<Seq<u8>>) -> Seq<u8> {
    let head = match commutator {
        Some(c) => seq![1u8] + c,
        None => seq![0u8],
    };
    head + reflector + seq![rotors.len() as u8] + concat_configs(rotors, rotors.len())
}

/// Offset of the reflector wiring in a binary configuration.
pub open spec fn reflector_offset(data: Seq<u8>) -> int {
    if data[0] != 0 {
        257
    } else {
        1
    }
}

/// The data holds a whole binary configuration.
pub open spec fn config_complete(data: Seq<u8>) -> bool {
    &&& data.len() >= 1
    &&& data.len() >= reflector_offset(data) + 257
    &&& data.len() >= reflector_offset(data) + 257 + 256 * data[reflector_offset(data) + 256]
}

/// Rotor configuration `i` of a complete binary configuration.
pub open spec fn rotor_at(data: Seq<u8>, i: int) -> Seq<u8> {
    let start = reflector_offset(data) + 257 + 256 * i;
    data.subrange(start, start + 256)
}

/// A zero-based, 256-byte window of `data` starting at `start`.
fn window(data: &[u8], start: usize) -> (r: Vec<u8>)
    requires
        start + 256 <= data@.len(),
    ensures
        r@ == data@.subrange(start as int, start + 256),
{
    let n = data.len();
    let mut out: Vec<u8> = Vec::with_capacity(BYTE_CNT);
    let mut i: usize = 0;
    while i < BYTE_CNT
        invariant
            n == data@.len(),
            i <= 256,
            start + 256 <= data@.len(),
            out@ == data@.subrange(start as int, start + i),
        decreases 256 - i,
    {
        out.push(data[start + i]);
        i = i + 1;
        assert(out@ =~= data@.subrange(start as int, start + i));
    }
    out
}

fn append_all(out: &mut Vec<u8>, b: &[u8])
    requires
        old(out)@.len() + b@.len() <= usize::MAX,
    ensures
        final(out)@ == old(out)@ + b@,
{
    let mut k: usize = 0;
    while k < b.len()
        invariant
            k <= b@.len(),
            old(out)@.len() + b@.len() <= usize::MAX,
            out@ == old(out)@ + b@.take(k as int),
        decreases b@.len() - k,
    {
        out.push(b[k]);
        k = k + 1;
        assert(out@ =~= old(out)@ + b@.take(k as int));
    }
    assert(b@.take(b@.len() as int) =~= b@);
}

/// Writes and reads the binary configuration of a machine over byte values.
pub struct BinConfigSerializer;

impl BinConfigSerializer {
    /// The binary configuration of a machine. Every rotor configuration must
    /// have 256 entries and there may be at most 255 rotors.
    pub fn save_configs(
        commutator_config: Option<&[u8]>,
        reflector_config: &[u8],
        rotors_configs: &[Vec<u8>],
    ) -> (r: Result<Vec<u8>, ConfigError>)
        requires
            commutator_config matches Some(c) ==> c@.len() <= usize::MAX / 4,
            reflector_config@.len() <= usize::MAX / 4,
        ensures
            (exists|i: int| 0 <= i < rotors_configs@.len() && (#[trigger] rotors_configs@[i])@.len() != 256)
                ==> r == Err::<Vec<u8>, ConfigError>(ConfigError::RotorLengthMismatch),
            (forall|i: int| 0 <= i < rotors_configs@.len() ==> (#[trigger] rotors_configs@[i])@.len() == 256)
                && rotors_configs@.len() > 255 ==> r == Err::<Vec<u8>, ConfigError>(ConfigError::TooManyRotors),
            r matches Ok(v) ==> v@ == config_bytes(
                match commutator_config {
                    Some(c) => Some(c@),
                    None => None::<Seq<u8>>,
                },
                reflector_config@,
                Seq::new(rotors_configs@.len(), |i: int| rotors_configs@[i]@),
            ),
            (forall|i: int| 0 <= i < rotors_configs@.len() ==> (#[trigger] rotors_configs@[i])@.len() == 256)
                && rotors_configs@.len() <= 255 ==> r is Ok,
    {
        let mut i: usize = 0;
        while i < rotors_configs.len()
            invariant
                i <= rotors_configs@.len(),
                forall|j: int| 0 <= j < i ==> (#[trigger] rotors_configs@[j])@.len() == 256,
            decreases rotors_configs@.len() - i,
        {
            if rotors_configs[i].len() != BYTE_CNT {
                return Err(ConfigError::RotorLengthMismatch);
            }
            i = i + 1;
        }
        let rotors_cnt = rotors_configs.len();
        if rotors_cnt > 255 {
            return Err(ConfigError::TooManyRotors);
        }
        let ghost rotors = Seq::new(rotors_configs@.len(), |i: int| rotors_configs@[i]@);
        let mut out: Vec<u8> = Vec::new();
        match commutator_config {
            Some(cfg) => {
                out.push(1u8);
                append_all(&mut out, cfg);
            },
            None => {
                out.push(0u8);
            },
        }
        append_all(&mut out, reflector_config);
        out.push(rotors_cnt as u8);
        let ghost prefix = out@;
        assert(out@.len() <= usize::MAX / 2 + 2);
        let mut i: usize = 0;
        while i < rotors_cnt
            invariant
                rotors_cnt == rotors_configs@.len(),
                rotors_cnt <= 255,
                rotors == Seq::new(rotors_configs@.len(), |i: int| rotors_configs@[i]@),
                forall|j: int| 0 <= j < rotors_cnt ==> (#[trigger] rotors_configs@[j])@.len() == 256,
                prefix.len() <= usize::MAX / 2 + 2,
                i <= rotors_cnt,
                out@ == prefix + concat_configs(rotors, i as nat),
                concat_configs(rotors, i as nat).len() == 256 * i,
            decreases rotors_cnt - i,
        {
            append_all(&mut out, rotors_configs[i].as_slice());
            i = i + 1;
            assert(rotors[i - 1] == rotors_configs@[i - 1]@);
            assert(out@ =~= prefix + concat_configs(rotors, i as nat));
        }
        assert(out@ =~= config_bytes(
            match commutator_config {
                Some(c) => Some(c@),
                None => None::<Seq<u8>>,
            },
            reflector_config@,
            rotors,
        ));
        Ok(out)
    }

    /// Reads a binary configuration: the plugboard wiring (when the flag byte
    /// is not 0), the reflector wiring and the rotor configurations, 256 bytes
    /// each. Bytes after the configuration are ignored.
    pub fn get_configs(data: &[u8]) -> (r: Result<(Option<Vec<u8>>, Vec<u8>, Vec<Vec<u8>>), ConfigError>)
        ensures
            !config_complete(data@) ==> r == Err::<(Option<Vec<u8>>, Vec<u8>, Vec<Vec<u8>>), ConfigError>(
                ConfigError::UnexpectedEof,
            ),
            config_complete(data@) ==> r is Ok,
            r matches Ok((c, refl, rotors)) ==> {
                &&& (c is Some <==> data@[0] != 0)
                &&& (c matches Some(cv) ==> cv@ == data@.subrange(1, 257))
                &&& refl@ == data@.subrange(reflector_offset(data@), reflector_offset(data@) + 256)
                &&& rotors@.len() == data@[reflector_offset(data@) + 256]
                &&& forall|i: int| 0 <= i < rotors@.len() ==> (#[trigger] rotors@[i])@ == rotor_at(data@, i)
            },
    {
        let len = data.len();
        if len < 1 {
            return Err(ConfigError::UnexpectedEof);
        }
        let with_commutator = data[0] != 0;
        let offset: usize = if with_commutator { 257 } else { 1 };
        if len < offset + 257 {
            return Err(ConfigError::UnexpectedEof);
        }
        let commutator_config = if with_commutator {
            Some(window(data, 1))
        } else {
            None
        };
        let reflector_config = window(data, offset);
        let rotors_cnt = data[offset + 256] as usize;
        if (len - (offset + 257)) / BYTE_CNT < rotors_cnt {
            return Err(ConfigError::UnexpectedEof);
        }
        assert(len >= offset + 257 + 256 * rotors_cnt) by (nonlinear_arith)
            requires
                (len - (offset + 257)) / 256 >= rotors_cnt,
                len >= offset + 257,
        ;
        let mut rotors_configs: Vec<Vec<u8>> = Vec::with_capacity(rotors_cnt);
        let mut i: usize = 0;
        while i < rotors_cnt
            invariant
                len == data@.len(),
                offset == reflector_offset(data@),
                rotors_cnt == data@[offset + 256],
                len >= offset + 257 + 256 * rotors_cnt,
                i <= rotors_cnt,
                rotors_configs@.len() == i,
                forall|j: int| 0 <= j < i ==> (#[trigger] rotors_configs@[j])@ == rotor_at(data@, j),
            decreases rotors_cnt - i,
        {
            assert(offset + 257 + 256 * i + 256 <= len) by (nonlinear_arith)
                requires
                    i < rotors_cnt,
                    len >= offset + 257 + 256 * rotors_cnt,
            ;
            rotors_configs.push(window(data, offset + 257 + BYTE_CNT * i));
            i = i + 1;
        }
        Ok((commutator_config, reflector_config, rotors_configs))
    }
}

} // verus!
