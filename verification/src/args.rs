use vstd::prelude::*;

verus! {

/// The decimal value the digits of `s` denote, most significant first.
pub open spec fn dec_val(s: Seq<u8>) -> int
    decreases s.len(),
{
    if s.len() == 0 {
        0
    } else {
        dec_val(s.drop_last()) * 10 + (s.last() - 48)
    }
}

/// Every byte of `s` is a decimal digit.
pub open spec fn all_digits(s: Seq<u8>) -> bool {
    forall|i: int| 0 <= i < s.len() ==> 48 <= #[trigger] s[i] <= 57
}

/// What a numeric option value denotes: a non-empty, all-digit string whose
/// value fits in 64 bits, and nothing else.
pub open spec fn spec_parse_u64(s: Seq<u8>) -> Option<u64> {
    if s.len() >= 1 && all_digits(s) && dec_val(s) <= u64::MAX {
        Some(dec_val(s) as u64)
    } else {
        None
    }
}

proof fn lemma_dec_val_take_step(s: Seq<u8>, i: int)
    requires
        0 <= i < s.len(),
    ensures
        dec_val(s.take(i + 1)) == dec_val(s.take(i)) * 10 + (s[i] - 48),
{
    assert(s.take(i + 1).drop_last() =~= s.take(i));
}

proof fn lemma_dec_val_take_all(s: Seq<u8>)
    ensures
        dec_val(s.take(s.len() as int)) == dec_val(s),
{
    assert(s.take(s.len() as int) =~= s);
}

/// Once the digits read so far outgrow the limit, reading further digits
/// cannot shrink the value.
proof fn lemma_dec_val_grows(s: Seq<u8>, i: int, j: int)
    requires
        0 <= i <= j <= s.len(),
        all_digits(s),
        dec_val(s.take(i)) > u64::MAX,
    ensures
        dec_val(s.take(j)) > u64::MAX,
    decreases j - i,
{
    if i < j {
        lemma_dec_val_take_step(s, i);
        lemma_dec_val_grows(s, i + 1, j);
    }
}

/// Parse one decimal option value.
pub fn parse(s: &Vec<u8>) -> (r: Option<u64>)
    ensures
        r == spec_parse_u64(s@),
{
    if s.len() == 0 {
        return None;
    }
    let mut acc: u64 = 0;
    let mut i: usize = 0;
    while i < s.len()
        invariant
            0 <= i <= s@.len(),
            all_digits(s@.take(i as int)),
            acc == dec_val(s@.take(i as int)),
        decreases s@.len() - i,
    {
        let b = s[i];
        if b < 48 || b > 57 {
            proof {
                assert(!all_digits(s@));
            }
            return None;
        }
        let d = (b - 48) as u64;
        proof {
            lemma_dec_val_take_step(s@, i as int);
        }
        if acc > (u64::MAX - d) / 10 {
            proof {
                vstd::arithmetic::div_mod::lemma_fundamental_div_mod(
                    (u64::MAX - d) as int,
                    10,
                );
                assert(10 * (acc as int) + d > u64::MAX);
                if all_digits(s@) {
                    lemma_dec_val_grows(s@, i as int + 1, s@.len() as int);
                    lemma_dec_val_take_all(s@);
                }
            }
            return None;
        }
        proof {
            vstd::arithmetic::div_mod::lemma_fundamental_div_mod((u64::MAX - d) as int, 10);
            assert(10 * (acc as int) + d <= u64::MAX);
        }
        acc = acc * 10 + d;
        i = i + 1;
    }
    proof {
        lemma_dec_val_take_all(s@);
        assert(s@.take(s@.len() as int) =~= s@);
    }
    Some(acc)
}

/// The command-line options: the path of the binary under test, an optional
/// seed, and the sizes of the run.
pub struct Args {
    pub path: Vec<u8>,
    pub seed: Option<u64>,
    pub clients: u8,
    pub servers: u8,
    pub steps: u64,
}

/// The options as mathematical values, for contracts.
pub ghost struct ArgsView {
    pub path: Seq<u8>,
    pub seed: Option<u64>,
    pub clients: u8,
    pub servers: u8,
    pub steps: u64,
}

impl View for Args {
    type V = ArgsView;

    open spec fn view(&self) -> ArgsView {
        ArgsView {
            path: self.path@,
            seed: self.seed,
            clients: self.clients,
            servers: self.servers,
            steps: self.steps,
        }
    }
}

/// The default path of the binary under test: "nats-server".
pub open spec fn spec_default_path() -> Seq<u8> {
    seq![110u8, 97, 116, 115, 45, 115, 101, 114, 118, 101, 114]
}

/// The defaults: the well-known binary name, a fresh seed, 2 clients,
/// 3 servers, 10000 steps.
pub open spec fn spec_default_args() -> ArgsView {
    ArgsView {
        path: spec_default_path(),
        seed: None,
        clients: 2,
        servers: 3,
        steps: 10000,
    }
}

impl Default for Args {
    fn default() -> (a: Args)
        ensures
            a@ == spec_default_args(),
    {
        let mut path: Vec<u8> = Vec::new();
        path.push(110);
        path.push(97);
        path.push(116);
        path.push(115);
        path.push(45);
        path.push(115);
        path.push(101);
        path.push(114);
        path.push(118);
        path.push(101);
        path.push(114);
        proof {
            assert(path@ =~= spec_default_path());
        }
        Args { path, seed: None, clients: 2, servers: 3, steps: 10000 }
    }
}

/// The position of the first `=` in `s` at or after `from`, or the length.
pub open spec fn find_eq(s: Seq<u8>, from: int) -> int
    decreases s.len() - from,
{
    if from < 0 || from >= s.len() {
        s.len() as int
    } else if s[from] == 61 {
        from
    } else {
        find_eq(s, from + 1)
    }
}

proof fn lemma_find_eq_at(s: Seq<u8>, from: int, k: int)
    requires
        0 <= from <= k <= s.len(),
        forall|j: int| from <= j < k ==> s[j] != 61,
        k == s.len() || s[k] == 61,
    ensures
        find_eq(s, from) == k,
    decreases k - from,
{
    if from < k {
        lemma_find_eq_at(s, from + 1, k);
    }
}

fn find_eq_vec(v: &Vec<u8>, from: usize) -> (p: usize)
    requires
        from <= v@.len(),
    ensures
        p == find_eq(v@, from as int),
        from <= p <= v@.len(),
{
    let mut i: usize = from;
    while i < v.len()
        invariant
            from <= i <= v@.len(),
            forall|j: int| from <= j < i ==> v@[j] != 61,
        decreases v@.len() - i,
    {
        if v[i] == 61 {
            proof {
                lemma_find_eq_at(v@, from as int, i as int);
            }
            return i;
        }
        i = i + 1;
    }
    proof {
        lemma_find_eq_at(v@, from as int, v@.len() as int);
    }
    i
}

/// An owned copy of `v[from..to]`.
fn sub_vec(v: &Vec<u8>, from: usize, to: usize) -> (r: Vec<u8>)
    requires
        from <= to <= v@.len(),
    ensures
        r@ == v@.subrange(from as int, to as int),
{
    let mut r: Vec<u8> = Vec::new();
    let mut i: usize = from;
    while i < to
        invariant
            from <= i <= to <= v@.len(),
            r@ == v@.subrange(from as int, i as int),
        decreases to - i,
    {
        r.push(v[i]);
        proof {
            assert(r@ =~= v@.subrange(from as int, i as int + 1));
        }
        i = i + 1;
    }
    r
}

fn eq_bytes(a: &Vec<u8>, b: &Vec<u8>) -> (r: bool)
    ensures
        r == (a@ == b@),
{
    if a.len() != b.len() {
        return false;
    }
    let mut i: usize = 0;
    while i < a.len()
        invariant
            0 <= i <= a@.len(),
            a@.len() == b@.len(),
            forall|j: int| 0 <= j < i ==> a@[j] == b@[j],
        decreases a@.len() - i,
    {
        if a[i] != b[i] {
            return false;
        }
        i = i + 1;
    }
    proof {
        assert(a@ =~= b@);
    }
    true
}

/// The option name "path".
pub open spec fn opt_path() -> Seq<u8> {
    seq![112u8, 97, 116, 104]
}

/// The option name "seed".
pub open spec fn opt_seed() -> Seq<u8> {
    seq![115u8, 101, 101, 100]
}

/// The option name "clients".
pub open spec fn opt_clients() -> Seq<u8> {
    seq![99u8, 108, 105, 101, 110, 116, 115]
}

/// The option name "servers".
pub open spec fn opt_servers() -> Seq<u8> {
    seq![115u8, 101, 114, 118, 101, 114, 115]
}

/// The option name "steps".
pub open spec fn opt_steps() -> Seq<u8> {
    seq![115u8, 116, 101, 112, 115]
}

fn opt_path_vec() -> (r: Vec<u8>)
    ensures
        r@ == opt_path(),
{
    let mut v: Vec<u8> = Vec::new();
    v.push(112);
    v.push(97);
    v.push(116);
    v.push(104);
    proof {
        assert(v@ =~= opt_path());
    }
    v
}

fn opt_seed_vec() -> (r: Vec<u8>)
    ensures
        r@ == opt_seed(),
{
    let mut v: Vec<u8> = Vec::new();
    v.push(115);
    v.push(101);
    v.push(101);
    v.push(100);
    proof {
        assert(v@ =~= opt_seed());
    }
    v
}

fn opt_clients_vec() -> (r: Vec<u8>)
    ensures
        r@ == opt_clients(),
{
    let mut v: Vec<u8> = Vec::new();
    v.push(99);
    v.push(108);
    v.push(105);
    v.push(101);
    v.push(110);
    v.push(116);
    v.push(115);
    proof {
        assert(v@ =~= opt_clients());
    }
    v
}

fn opt_servers_vec() -> (r: Vec<u8>)
    ensures
        r@ == opt_servers(),
{
    let mut v: Vec<u8> = Vec::new();
    v.push(115);
    v.push(101);
    v.push(114);
    v.push(118);
    v.push(101);
    v.push(114);
    v.push(115);
    proof {
        assert(v@ =~= opt_servers());
    }
    v
}

fn opt_steps_vec() -> (r: Vec<u8>)
    ensures
        r@ == opt_steps(),
{
    let mut v: Vec<u8> = Vec::new();
    v.push(115);
    v.push(116);
    v.push(101);
    v.push(112);
    v.push(115);
    proof {
        assert(v@ =~= opt_steps());
    }
    v
}

/// What one raw option does to the settings: `--name=value`, with the value
/// running to the next `=` or the end; an unknown name, a missing value or a
/// malformed number means the whole command line is rejected.
pub open spec fn spec_apply_arg(a: ArgsView, s: Seq<u8>) -> Option<ArgsView> {
    if s.len() < 2 || s[0] != 45 || s[1] != 45 {
        None
    } else {
        let p = find_eq(s, 2);
        if p >= s.len() {
            None
        } else {
            let name = s.subrange(2, p);
            let value = s.subrange(p + 1, find_eq(s, p + 1));
            if name == opt_path() {
                Some(ArgsView { path: value, ..a })
            } else if name == opt_seed() {
                match spec_parse_u64(value) {
                    Some(v) => Some(ArgsView { seed: Some(v), ..a }),
                    None => None,
                }
            } else if name == opt_clients() {
                match spec_parse_u64(value) {
                    Some(v) => if v <= 255 {
                        Some(ArgsView { clients: v as u8, ..a })
                    } else {
                        None
                    },
                    None => None,
                }
            } else if name == opt_servers() {
                match spec_parse_u64(value) {
                    Some(v) => if v <= 255 {
                        Some(ArgsView { servers: v as u8, ..a })
                    } else {
                        None
                    },
                    None => None,
                }
            } else if name == opt_steps() {
                match spec_parse_u64(value) {
                    Some(v) => Some(ArgsView { steps: v, ..a }),
                    None => None,
                }
            } else {
                None
            }
        }
    }
}

/// The settings after the raw options from position `i` on, or nothing as
/// soon as one option is rejected.
pub open spec fn spec_parse_args_from(a: ArgsView, args: Seq<Vec<u8>>, i: int) -> Option<ArgsView>
    decreases args.len() - i,
{
    if i < 0 || i >= args.len() {
        Some(a)
    } else {
        match spec_apply_arg(a, args[i]@) {
            Some(a2) => spec_parse_args_from(a2, args, i + 1),
            None => None,
        }
    }
}

fn apply_arg(a: &mut Args, arg: &Vec<u8>) -> (ok: bool)
    ensures
        match spec_apply_arg(old(a)@, arg@) {
            Some(v) => ok && final(a)@ == v,
            None => !ok,
        },
{
    if arg.len() < 2 {
        return false;
    }
    if arg[0] != 45 || arg[1] != 45 {
        return false;
    }
    let p = find_eq_vec(arg, 2);
    if p >= arg.len() {
        return false;
    }
    let q = find_eq_vec(arg, p + 1);
    let name = sub_vec(arg, 2, p);
    let value = sub_vec(arg, p + 1, q);
    if eq_bytes(&name, &opt_path_vec()) {
        a.path = value;
        true
    } else if eq_bytes(&name, &opt_seed_vec()) {
        match parse(&value) {
            Some(v) => {
                a.seed = Some(v);
                true
            },
            None => false,
        }
    } else if eq_bytes(&name, &opt_clients_vec()) {
        match parse(&value) {
            Some(v) => if v <= 255 {
                a.clients = v as u8;
                true
            } else {
                false
            },
            None => false,
        }
    } else if eq_bytes(&name, &opt_servers_vec()) {
        match parse(&value) {
            Some(v) => if v <= 255 {
                a.servers = v as u8;
                true
            } else {
                false
            },
            None => false,
        }
    } else if eq_bytes(&name, &opt_steps_vec()) {
        match parse(&value) {
            Some(v) => {
                a.steps = v;
                true
            },
            None => false,
        }
    } else {
        false
    }
}

impl Args {
    /// Parse the raw command-line options, without the program name: the
    /// defaults, folded over the options left to right; nothing when any
    /// option is unknown or malformed.
    pub fn parse(args: &Vec<Vec<u8>>) -> (r: Option<Args>)
        ensures
            match spec_parse_args_from(spec_default_args(), args@, 0) {
                Some(v) => r matches Some(a) && a@ == v,
                None => r is None,
            },
    {
        let mut a = Args::default();
        let n = args.len();
        let mut i: usize = 0;
        while i < n
            invariant
                0 <= i <= n,
                n == args@.len(),
                spec_parse_args_from(spec_default_args(), args@, 0) == spec_parse_args_from(
                    a@,
                    args@,
                    i as int,
                ),
            decreases n - i,
        {
            let ok = apply_arg(&mut a, &args[i]);
            if !ok {
                return None;
            }
            i = i + 1;
        }
        Some(a)
    }
}

} // verus!
