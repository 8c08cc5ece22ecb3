//! The parameter resolver: turning command-line arguments and predefined
//! sets into the key/value bindings mock generation consumes.

use vstd::prelude::*;

use crate::collections::{has_key, has_name, keys_unique, lemma_lookup_unique, lookup, StringMap, StringSet};
use crate::config::{AppConfiguration, PredefinedSet, SetupConfiguration};
use crate::error::ApplicationError;

verus! {

/// What the daemon is asked to do, already parsed into plain values.
#[derive(Debug, Clone, PartialEq)]
pub struct Args {
    /// The configuration file to read.
    pub file: String,
    /// The setup to start, by identifier.
    pub id: Option<String>,
    /// List the setups and exit.
    pub list: bool,
    /// Parameter values, as key/value pairs.
    pub param: Vec<(String, String)>,
    /// List the required parameters of the setup and exit.
    pub list_params: bool,
    /// List the predefined sets of the setup and exit.
    pub list_predefined_sets: bool,
    /// Seed the bindings from this predefined set.
    pub predefined_set: Option<String>,
    /// Bind and exit instead of serving forever.
    pub verify: bool,
}

/// Split one `KEY=value` argument at its first `=`.
pub fn parse_key_val(s: &str) -> (r: Result<(String, String), ApplicationError>)
    ensures
        r is Ok <==> exists|i: int| 0 <= i < s@.len() && s@[i] == '=',
        r matches Ok(kv) ==> exists|i: int|
            {
                &&& 0 <= i < s@.len()
                &&& s@[i] == '='
                &&& forall|j: int| 0 <= j < i ==> s@[j] != '='
                &&& kv.0@ == s@.subrange(0, i)
                &&& kv.1@ == s@.subrange(i + 1, s@.len() as int)
            },
        r matches Err(e) ==> e is ConfigurationError,
{
    let cs = crate::text::chars_of(s);
    let n = cs.len();
    let mut i: usize = 0;
    while i < n
        invariant
            i <= n,
            n == cs@.len(),
            cs@ == s@,
            forall|j: int| 0 <= j < i ==> s@[j] != '=',
        decreases n - i,
    {
        if cs[i] == '=' {
            let mut key_chars: Vec<char> = Vec::new();
            let mut j: usize = 0;
            while j < i
                invariant
                    j <= i,
                    i < cs@.len(),
                    cs@ == s@,
                    key_chars@ == s@.subrange(0, j as int),
                decreases i - j,
            {
                key_chars.push(cs[j]);
                j = j + 1;
                proof {
                    assert(key_chars@ =~= s@.subrange(0, j as int));
                }
            }
            let mut value_chars: Vec<char> = Vec::new();
            let mut q: usize = i + 1;
            while q < n
                invariant
                    i + 1 <= q <= n,
                    n == cs@.len(),
                    cs@ == s@,
                    value_chars@ == s@.subrange(i + 1, q as int),
                decreases n - q,
            {
                value_chars.push(cs[q]);
                q = q + 1;
                proof {
                    assert(value_chars@ =~= s@.subrange(i + 1, q as int));
                }
            }
            let key = crate::text::string_of(&key_chars);
            let value = crate::text::string_of(&value_chars);
            return Ok((key, value));
        }
        i = i + 1;
    }
    Err(ApplicationError::ConfigurationError("no `=` found".to_owned()))
}

/// The first setup carrying the identifier; none found is an error.
pub fn get_setup<'a>(id: &str, config: &'a AppConfiguration) -> (r: Result<
    &'a SetupConfiguration,
    ApplicationError,
>)
    ensures
        r is Ok <==> !crate::config::no_setup(config.setups@, id@),
        r matches Ok(t) ==> exists|i: int|
            #[trigger] crate::config::first_setup(config.setups@, id@, i) && *t
                == config.setups@[i],
        r matches Err(e) ==> e is CouldNotFind,
{
    match config.get_setup(id) {
        Option::Some(setup) => Ok(setup),
        Option::None => Err(ApplicationError::CouldNotFind("No setup with this id".to_owned())),
    }
}

/// The first predefined set carrying the name, as a copy; none found is an
/// error.
pub fn get_predefined_set(
    setup_configuration: &SetupConfiguration,
    predefined_set_name: &String,
) -> (r: Result<PredefinedSet, ApplicationError>)
    ensures
        r is Ok <==> (setup_configuration.predefined_params matches Some(sets) && exists|i: int|
            0 <= i < sets@.len() && (#[trigger] sets@[i]).name@ == predefined_set_name@),
        r matches Ok(set) ==> (setup_configuration.predefined_params matches Some(sets)
            && exists|i: int|
            {
                &&& 0 <= i < sets@.len()
                &&& (#[trigger] sets@[i]).name@ == predefined_set_name@
                &&& forall|j: int| 0 <= j < i ==> sets@[j].name@ != predefined_set_name@
                &&& set.eqv(&sets@[i])
            }),
        r matches Err(e) ==> e is CouldNotFind,
{
    match &setup_configuration.predefined_params {
        Option::Some(sets) => {
            let n = sets.len();
            let mut i: usize = 0;
            while i < n
                invariant
                    i <= n,
                    n == sets@.len(),
                    setup_configuration.predefined_params matches Some(s2) && s2 == *sets,
                    forall|j: int| 0 <= j < i ==> sets@[j].name@ != predefined_set_name@,
                decreases n - i,
            {
                if crate::text::eq_str(sets[i].name.as_str(), predefined_set_name.as_str()) {
                    proof {
                        assert(0 <= i < sets@.len() && sets@[i as int].name@ == predefined_set_name@);
                    }
                    return Ok(sets[i].clone());
                }
                i = i + 1;
            }
            Err(ApplicationError::CouldNotFind("Predefined set not found".to_owned()))
        },
        Option::None => Err(
            ApplicationError::CouldNotFind("Predefined set not found".to_owned()),
        ),
    }
}

/// The parameter names the setup requires.
pub open spec fn required_of(setup: SetupConfiguration) -> Seq<String> {
    match setup.params {
        Option::Some(ps) => ps@,
        Option::None => Seq::<String>::empty(),
    }
}

/// The values seq of the first predefined set carrying the name, if any.
pub open spec fn chosen_preset(setup: SetupConfiguration, name: Seq<char>) -> Option<
    Seq<(String, String)>,
> {
    match setup.predefined_params {
        Option::Some(sets) => if exists|i: int|
            0 <= i < sets@.len() && (#[trigger] sets@[i]).name@ == name {
            Option::Some(
                sets@[choose|i: int|
                    0 <= i < sets@.len() && (#[trigger] sets@[i]).name@ == name
                        && forall|j: int| 0 <= j < i ==> sets@[j].name@ != name].values@,
            )
        } else {
            Option::None
        },
        Option::None => Option::None,
    }
}

/// The values of the first predefined set the arguments name, if they name
/// one and it exists.
pub open spec fn chosen_of(setup: SetupConfiguration, args: Args) -> Option<
    Seq<(String, String)>,
> {
    match args.predefined_set {
        Option::Some(n) => chosen_preset(setup, n@),
        Option::None => Option::None,
    }
}

/// The keys of a pair list, as text, in order.
pub open spec fn keys_view(s: Seq<(String, String)>) -> Seq<Seq<char>> {
    s.map_values(|p: (String, String)| p.0@)
}

/// The key order after seeding from a predefined set: every required name
/// of the set joins in the set's order, each once.
pub open spec fn seeded_keys(
    acc: Seq<Seq<char>>,
    vs: Seq<(String, String)>,
    req: Seq<String>,
) -> Seq<Seq<char>>
    decreases vs.len(),
{
    if vs.len() == 0 {
        acc
    } else {
        seeded_keys(
            if has_name(req, vs[0].0@) && !acc.contains(vs[0].0@) {
                acc.push(vs[0].0@)
            } else {
                acc
            },
            vs.drop_first(),
            req,
        )
    }
}

/// The key order after the supplied pairs: every new key joins at its first
/// occurrence.
pub open spec fn extended_keys(acc: Seq<Seq<char>>, user: Seq<(String, String)>) -> Seq<Seq<char>>
    decreases user.len(),
{
    if user.len() == 0 {
        acc
    } else {
        extended_keys(
            if acc.contains(user[0].0@) {
                acc
            } else {
                acc.push(user[0].0@)
            },
            user.drop_first(),
        )
    }
}

/// The order the resolved binding keys take: the required names of the
/// chosen predefined set first, in the set's order, then the supplied keys
/// by first occurrence.
pub open spec fn resolved_key_order(setup: SetupConfiguration, args: Args) -> Seq<Seq<char>> {
    let base = match chosen_of(setup, args) {
        Option::Some(vs) => seeded_keys(Seq::<Seq<char>>::empty(), vs, required_of(setup)),
        Option::None => Seq::<Seq<char>>::empty(),
    };
    extended_keys(base, args.param@)
}

/// A required name is covered by the sources the resolver draws from.
pub open spec fn covered(
    k: Seq<char>,
    preset: Option<Seq<(String, String)>>,
    user: Seq<(String, String)>,
) -> bool {
    ||| (preset matches Some(vs) && has_key(vs, k))
    ||| exists|i: int| 0 <= i < user.len() && (#[trigger] user[i]).0@ == k
}

/// When the resolver succeeds: no parameters are required, or the named
/// predefined set exists (when one is named), every supplied pair names a
/// required parameter, and the sources together cover every required name.
pub open spec fn resolve_ok_spec(setup: SetupConfiguration, args: Args) -> bool {
    let req = required_of(setup);
    if req.len() == 0 {
        true
    } else {
        &&& match args.predefined_set {
            Option::Some(n) => chosen_preset(setup, n@) is Some,
            Option::None => true,
        }
        &&& forall|i: int|
            0 <= i < args.param@.len() ==> has_name(req, (#[trigger] args.param@[i]).0@)
        &&& forall|k: Seq<char>| #[trigger]
            has_name(req, k) ==> covered(
                k,
                match args.predefined_set {
                    Option::Some(n) => chosen_preset(setup, n@),
                    Option::None => Option::None,
                },
                args.param@,
            )
    }
}

/// Resolve the parameter bindings for a setup: seed from the named
/// predefined set (keeping only required names), override and extend with
/// the supplied pairs (each must name a required parameter), and demand that
/// every required parameter ends up bound.  A setup without required
/// parameters resolves to no bindings at all.
///
/// On success every required parameter appears exactly once in the returned
/// bindings: the keys are unique, each key is required, and each required
/// name is a key.
/// Seed the bindings from a predefined set: every required name the set
/// supplies gets the set's value, in the set's order; other names of the
/// set are passed over.
fn seed_bindings(bindings: &mut StringMap, preset: &PredefinedSet, required: &StringSet)
    requires
        old(bindings)@ == Seq::<(String, String)>::empty(),
    ensures
        forall|p: int|
            0 <= p < final(bindings)@.len() ==> has_name(
                required@,
                (#[trigger] final(bindings)@[p]).0@,
            ),
        forall|p: int|
            0 <= p < final(bindings)@.len() ==> binding_from_pair(
                Option::Some(preset.values@),
                Seq::<(String, String)>::empty(),
                #[trigger] final(bindings)@[p],
            ),
        forall|j: int|
            0 <= j < preset.values@.len() && has_name(
                required@,
                (#[trigger] preset.values@[j]).0@,
            ) ==> has_key(final(bindings)@, preset.values@[j].0@),
        keys_view(final(bindings)@) == seeded_keys(
            Seq::<Seq<char>>::empty(),
            preset.values@,
            required@,
        ),
{
    proof {
        use_type_invariant(&preset.values);
    }
    let ghost vs = preset.values@;
    let ghost req = required@;
    let entries = preset.values.entries();
    let n = entries.len();
    let mut i: usize = 0;
    proof {
        assert(vs.subrange(0, n as int) =~= vs);
        assert(keys_view(bindings@) =~= Seq::<Seq<char>>::empty());
    }
    while i < n
        invariant
            i <= n,
            n == vs.len(),
            entries@ == vs,
            vs == preset.values@,
            keys_unique(vs),
            required@ == req,
            seeded_keys(keys_view(bindings@), vs.subrange(i as int, n as int), req)
                == seeded_keys(Seq::<Seq<char>>::empty(), vs, req),
            forall|p: int|
                0 <= p < bindings@.len() ==> has_name(req, (#[trigger] bindings@[p]).0@),
            forall|p: int|
                0 <= p < bindings@.len() ==> binding_from_pair(
                    Option::Some(vs),
                    Seq::<(String, String)>::empty(),
                    #[trigger] bindings@[p],
                ),
            forall|j: int|
                0 <= j < i && has_name(req, (#[trigger] vs[j]).0@) ==> has_key(
                    bindings@,
                    vs[j].0@,
                ),
        decreases n - i,
    {
        let ghost rem = vs.subrange(i as int, n as int);
        proof {
            assert(rem[0] == vs[i as int]);
            assert(rem.drop_first() =~= vs.subrange(i + 1, n as int));
        }
        let key_required = required.contains(entries[i].0.as_str());
        if key_required {
            let ghost before = bindings@;
            proof {
                use_type_invariant(&*bindings);
                lemma_lookup_unique(vs, i as int);
            }
            bindings.insert(entries[i].0.clone(), entries[i].1.clone());
            proof {
                if !has_key(before, vs[i as int].0@) {
                    assert(bindings@.subrange(0, before.len() as int) =~= before);
                }
                lemma_insert_effects(before, bindings@, vs[i as int].0@, vs[i as int].1@);
                lemma_insert_keys(before, bindings@, vs[i as int].0@, vs[i as int].1@);
                assert forall|k2: Seq<char>| #[trigger]
                    has_key(before, k2) implies has_key(bindings@, k2) by {
                    let w = crate::collections::key_index(before, k2);
                    assert(has_key(bindings@, before[w].0@));
                }
                assert(binding_from_pair(
                    Option::Some(vs),
                    Seq::<(String, String)>::empty(),
                    (entries@[i as int].0, entries@[i as int].1),
                ));
                assert forall|p: int| 0 <= p < bindings@.len() implies has_name(
                    req,
                    (#[trigger] bindings@[p]).0@,
                ) && binding_from_pair(
                    Option::Some(vs),
                    Seq::<(String, String)>::empty(),
                    bindings@[p],
                ) by {
                    if exists|q: int|
                        0 <= q < before.len() && (#[trigger] before[q]).0@ == bindings@[p].0@
                            && before[q].1@ == bindings@[p].1@ {
                    } else {
                        assert(bindings@[p].0@ == vs[i as int].0@ && bindings@[p].1@
                            == vs[i as int].1@);
                    }
                }
            }
        }
        i = i + 1;
    }
    proof {
        assert(vs.subrange(n as int, n as int) =~= Seq::<(String, String)>::empty());
    }
}

/// Override and extend the bindings with the supplied pairs, each of which
/// must name a required parameter; new keys join at their first occurrence
/// and the last pair of a key decides its value.
/// One override/extend step: inserting the pair at `t` keeps every
/// invariant of the walk over the supplied pairs.
proof fn lemma_user_step(
    before: Seq<(String, String)>,
    after: Seq<(String, String)>,
    user: Seq<(String, String)>,
    t: int,
    chosen: Option<Seq<(String, String)>>,
    req: Seq<String>,
)
    requires
        0 <= t < user.len(),
        keys_unique(before),
        keys_unique(after),
        !has_key(before, user[t].0@) ==> after.len() == before.len() + 1 && after.subrange(
            0,
            before.len() as int,
        ) == before && after[before.len() as int].0@ == user[t].0@ && after[before.len() as int].1@
            == user[t].1@,
        has_key(before, user[t].0@) ==> {
            let ki = crate::collections::key_index(before, user[t].0@);
            &&& after.len() == before.len()
            &&& after[ki].0 == before[ki].0
            &&& after[ki].1@ == user[t].1@
            &&& forall|j: int| 0 <= j < before.len() && j != ki ==> after[j] == before[j]
        },
        has_name(req, user[t].0@),
        forall|p: int| 0 <= p < before.len() ==> has_name(req, (#[trigger] before[p]).0@),
        forall|p: int|
            0 <= p < before.len() ==> binding_from_pair(chosen, user, #[trigger] before[p]),
        forall|j: int|
            0 <= j < t ==> has_name(req, (#[trigger] user[j]).0@) && has_key(
                before,
                user[j].0@,
            ),
        forall|j: int|
            0 <= j < t && last_before(user, j, t) ==> (lookup(
                before,
                (#[trigger] user[j]).0@,
            ) matches Some(val) && val@ == user[j].1@),
    ensures
        forall|p: int| 0 <= p < after.len() ==> has_name(req, (#[trigger] after[p]).0@),
        forall|p: int|
            0 <= p < after.len() ==> binding_from_pair(chosen, user, #[trigger] after[p]),
        forall|k2: Seq<char>| #[trigger] has_key(before, k2) ==> has_key(after, k2),
        forall|j: int|
            0 <= j < t + 1 ==> has_name(req, (#[trigger] user[j]).0@) && has_key(
                after,
                user[j].0@,
            ),
        forall|j: int|
            0 <= j < t + 1 && last_before(user, j, t + 1) ==> (lookup(
                after,
                (#[trigger] user[j]).0@,
            ) matches Some(val) && val@ == user[j].1@),
        keys_view(after) == if has_key(before, user[t].0@) {
            keys_view(before)
        } else {
            keys_view(before).push(user[t].0@)
        },
        keys_view(before).contains(user[t].0@) <==> has_key(before, user[t].0@),
{
    lemma_insert_effects(before, after, user[t].0@, user[t].1@);
    lemma_insert_lookup(before, after, user[t].0@, user[t].1@);
    lemma_insert_keys(before, after, user[t].0@, user[t].1@);
    assert forall|k2: Seq<char>| #[trigger] has_key(before, k2) implies has_key(after, k2) by {
        let w = crate::collections::key_index(before, k2);
        assert(has_key(after, before[w].0@));
    }
    assert forall|j: int|
        0 <= j < t + 1 && last_before(user, j, t + 1) implies (lookup(
        after,
        (#[trigger] user[j]).0@,
    ) matches Some(val) && val@ == user[j].1@) by {
        if j == t {
        } else {
            assert(user[t].0@ != user[j].0@);
            assert(last_before(user, j, t));
            assert(lookup(after, user[j].0@) == lookup(before, user[j].0@));
        }
    }
    assert forall|p: int| 0 <= p < after.len() implies has_name(
        req,
        (#[trigger] after[p]).0@,
    ) && binding_from_pair(chosen, user, after[p]) by {
        if exists|q: int|
            0 <= q < before.len() && (#[trigger] before[q]).0@ == after[p].0@ && before[q].1@
                == after[p].1@ {
            let q = choose|q: int|
                0 <= q < before.len() && (#[trigger] before[q]).0@ == after[p].0@
                    && before[q].1@ == after[p].1@;
            assert(binding_from_pair(chosen, user, before[q]));
        } else {
            assert(after[p].0@ == user[t].0@ && after[p].1@ == user[t].1@);
        }
    }
}

#[verifier::rlimit(100)]
fn apply_user_pairs(
    bindings: &mut StringMap,
    required: &StringSet,
    args: &Args,
    Ghost(chosen): Ghost<Option<Seq<(String, String)>>>,
) -> (r: Result<(), ApplicationError>)
    requires
        crate::collections::names_unique(required@),
        forall|p: int|
            0 <= p < old(bindings)@.len() ==> has_name(
                required@,
                (#[trigger] old(bindings)@[p]).0@,
            ),
        forall|p: int|
            0 <= p < old(bindings)@.len() ==> binding_from_pair(
                chosen,
                args.param@,
                #[trigger] old(bindings)@[p],
            ),
    ensures
        r is Ok ==> forall|j: int|
            0 <= j < args.param@.len() ==> has_name(required@, (#[trigger] args.param@[j]).0@)
                && has_key(final(bindings)@, args.param@[j].0@),
        r is Ok ==> forall|p: int|
            0 <= p < final(bindings)@.len() ==> has_name(
                required@,
                (#[trigger] final(bindings)@[p]).0@,
            ),
        r is Ok ==> forall|p: int|
            0 <= p < final(bindings)@.len() ==> binding_from_pair(
                chosen,
                args.param@,
                #[trigger] final(bindings)@[p],
            ),
        forall|k2: Seq<char>| #[trigger]
            has_key(old(bindings)@, k2) ==> has_key(final(bindings)@, k2),
        r is Ok ==> forall|j: int|
            0 <= j < args.param@.len() && last_occurrence(args.param@, j) ==> (lookup(
                final(bindings)@,
                (#[trigger] args.param@[j]).0@,
            ) matches Some(val) && val@ == args.param@[j].1@),
        r is Ok ==> keys_view(final(bindings)@) == extended_keys(
            keys_view(old(bindings)@),
            args.param@,
        ),
        r matches Err(e) ==> e is CouldNotFind && exists|j: int|
            0 <= j < args.param@.len() && !has_name(required@, (#[trigger] args.param@[j]).0@),
{
    let ghost req = required@;
    let un = args.param.len();
    let mut u: usize = 0;
    proof {
        assert(args.param@.subrange(0, un as int) =~= args.param@);
    }
    while u < un
        invariant
            un == args.param@.len(),
            u <= un,
            crate::collections::names_unique(req),
            required@ == req,
            extended_keys(keys_view(bindings@), args.param@.subrange(u as int, un as int))
                == extended_keys(keys_view(old(bindings)@), args.param@),
            forall|p: int|
                0 <= p < bindings@.len() ==> has_name(req, (#[trigger] bindings@[p]).0@),
            forall|p: int|
                0 <= p < bindings@.len() ==> binding_from_pair(
                    chosen,
                    args.param@,
                    #[trigger] bindings@[p],
                ),
            forall|k2: Seq<char>| #[trigger]
                has_key(old(bindings)@, k2) ==> has_key(bindings@, k2),
            forall|j: int|
                0 <= j < u ==> has_name(req, (#[trigger] args.param@[j]).0@) && has_key(
                    bindings@,
                    args.param@[j].0@,
                ),
            forall|j: int|
                0 <= j < u && last_before(args.param@, j, u as int) ==> (lookup(
                    bindings@,
                    (#[trigger] args.param@[j]).0@,
                ) matches Some(val) && val@ == args.param@[j].1@),
        decreases un - u,
    {
        let ghost rem = args.param@.subrange(u as int, un as int);
        proof {
            assert(rem[0] == args.param@[u as int]);
            assert(rem.drop_first() =~= args.param@.subrange(u + 1, un as int));
        }
        let key_required = required.contains(args.param[u].0.as_str());
        if !key_required {
            proof {
                assert(!has_name(req, args.param@[u as int].0@));
            }
            return Err(
                ApplicationError::CouldNotFind("Parameter not found in setup".to_owned()),
            );
        }
        let ghost before = bindings@;
        proof {
            use_type_invariant(&*bindings);
        }
        bindings.insert(args.param[u].0.clone(), args.param[u].1.clone());
        u = u + 1;
        proof {
            use_type_invariant(&*bindings);
            if !has_key(before, args.param@[u - 1].0@) {
                assert(bindings@.subrange(0, before.len() as int) =~= before);
            }
            lemma_user_step(before, bindings@, args.param@, u - 1, chosen, req);
        }
    }
    proof {
        assert(args.param@.subrange(un as int, un as int) =~= Seq::<(String, String)>::empty());
    }
    Ok(())
}

#[verifier::rlimit(60)]
pub fn validate_parameters(setup: &SetupConfiguration, args: &Args) -> (r: Result<
    Vec<(String, String)>,
    ApplicationError,
>)
    ensures
        r is Ok <==> resolve_ok_spec(*setup, *args),
        r matches Ok(bs) ==> {
            &&& keys_unique(bs@)
            &&& forall|i: int|
                0 <= i < bs@.len() ==> has_name(required_of(*setup), (#[trigger] bs@[i]).0@)
            &&& forall|k: Seq<char>| #[trigger]
                has_name(required_of(*setup), k) ==> has_key(bs@, k)
            &&& forall|i: int|
                0 <= i < bs@.len() ==> binding_from_sources(*setup, *args, #[trigger] bs@[i])
            &&& forall|j: int|
                0 <= j < args.param@.len() && last_occurrence(args.param@, j) && has_name(
                    required_of(*setup),
                    args.param@[j].0@,
                ) ==> (lookup(bs@, (#[trigger] args.param@[j]).0@) matches Some(val) && val@
                    == args.param@[j].1@)
            &&& required_of(*setup).len() == 0 ==> bs@ == Seq::<(String, String)>::empty()
            &&& required_of(*setup).len() > 0 ==> keys_view(bs@) == resolved_key_order(
                *setup,
                *args,
            )
        },
        r matches Err(e) ==> e is CouldNotFind,
        (r is Err && (match args.predefined_set {
            Option::Some(n) => chosen_preset(*setup, n@) is Some,
            Option::None => true,
        }) && (forall|i: int|
            0 <= i < args.param@.len() ==> has_name(
                required_of(*setup),
                (#[trigger] args.param@[i]).0@,
            ))) ==> exists|j: int|
            {
                &&& 0 <= j < required_of(*setup).len()
                &&& !covered(
                    (#[trigger] required_of(*setup)[j])@,
                    chosen_of(*setup, *args),
                    args.param@,
                )
                &&& forall|p: int|
                    0 <= p < j ==> covered(
                        required_of(*setup)[p]@,
                        chosen_of(*setup, *args),
                        args.param@,
                    )
                &&& r matches Err(e) && e matches ApplicationError::CouldNotFind(m) && m@
                    == "Missing parameter: "@ + required_of(*setup)[j]@
            },
{
    let ghost req = required_of(*setup);
    let required = match &setup.params {
        Option::Some(ps) => ps,
        Option::None => {
            let empty: Vec<(String, String)> = Vec::new();
            return Ok(empty);
        },
    };
    if required.is_empty() {
        let empty: Vec<(String, String)> = Vec::new();
        return Ok(empty);
    }
    proof {
        use_type_invariant(required);
    }
    let ghost chosen: Option<Seq<(String, String)>> = match &args.predefined_set {
        Option::Some(n) => chosen_preset(*setup, n@),
        Option::None => Option::None,
    };
    let mut bindings = StringMap::new();
    match &args.predefined_set {
        Option::Some(name) => {
            let preset = match get_predefined_set(setup, name) {
                Ok(p) => p,
                Err(e) => {
                    proof {
                        assert(!resolve_ok_spec(*setup, *args));
                    }
                    return Err(e);
                },
            };
            proof {
                assert(chosen matches Some(vs) && vs == preset.values@) by {
                    let sets = setup.predefined_params->Some_0;
                    let v = choose|i: int|
                        {
                            &&& 0 <= i < sets@.len()
                            &&& (#[trigger] sets@[i]).name@ == name@
                            &&& forall|j: int| 0 <= j < i ==> sets@[j].name@ != name@
                            &&& preset.eqv(&sets@[i])
                        };
                    assert(0 <= v < sets@.len() && sets@[v].name@ == name@);
                    let w = choose|i: int|
                        0 <= i < sets@.len() && (#[trigger] sets@[i]).name@ == name@
                            && forall|j: int| 0 <= j < i ==> sets@[j].name@ != name@;
                    assert(w == v);
                }
            }
            seed_bindings(&mut bindings, &preset, required);
            proof {
                assert forall|p: int| 0 <= p < bindings@.len() implies binding_from_pair(
                    chosen,
                    args.param@,
                    #[trigger] bindings@[p],
                ) by {
                    assert(binding_from_pair(
                        Option::Some(preset.values@),
                        Seq::<(String, String)>::empty(),
                        bindings@[p],
                    ));
                }
                assert(chosen matches Some(vs) ==> forall|j: int|
                    0 <= j < vs.len() && has_name(req, (#[trigger] vs[j]).0@) ==> has_key(
                        bindings@,
                        vs[j].0@,
                    ));
                assert(chosen matches Some(vs) && keys_view(bindings@) == seeded_keys(
                    Seq::<Seq<char>>::empty(),
                    vs,
                    req,
                ));
            }
        },
        Option::None => {
            proof {
                assert(keys_view(bindings@) =~= Seq::<Seq<char>>::empty());
            }
        },
    }
    let ghost base = keys_view(bindings@);
    proof {
        assert(chosen == chosen_of(*setup, *args));
        assert(extended_keys(base, args.param@) == resolved_key_order(*setup, *args));
    }
    let ghost pre_user = bindings@;
    match apply_user_pairs(&mut bindings, required, args, Ghost(chosen)) {
        Ok(()) => {},
        Err(e) => {
            proof {
                assert(!resolve_ok_spec(*setup, *args));
            }
            return Err(e);
        },
    }
    proof {
        assert(keys_view(bindings@) == resolved_key_order(*setup, *args));
        assert(chosen matches Some(vs) ==> forall|j: int|
            0 <= j < vs.len() && has_name(req, (#[trigger] vs[j]).0@) ==> has_key(
                bindings@,
                vs[j].0@,
            )) by {
            if chosen is Some {
                let vs = chosen->Some_0;
                assert forall|j: int|
                    0 <= j < vs.len() && has_name(req, (#[trigger] vs[j]).0@) implies has_key(
                    bindings@,
                    vs[j].0@,
                ) by {
                    assert(has_key(pre_user, vs[j].0@));
                }
            }
        }
    }
    let names = required.names();
    let rn = names.len();
    let mut q: usize = 0;
    while q < rn
        invariant
            rn == req.len(),
            q <= rn,
            names@ == req,
            req == required_of(*setup),
            required@ == req,
            req.len() > 0,
            crate::collections::names_unique(req),
            chosen == chosen_of(*setup, *args),
            keys_view(bindings@) == resolved_key_order(*setup, *args),
            forall|p: int|
                0 <= p < bindings@.len() ==> has_name(req, (#[trigger] bindings@[p]).0@),
            forall|p: int|
                0 <= p < bindings@.len() ==> binding_from_pair(
                    chosen,
                    args.param@,
                    #[trigger] bindings@[p],
                ),
            forall|j: int|
                0 <= j < args.param@.len() ==> has_name(req, (#[trigger] args.param@[j]).0@)
                    && has_key(bindings@, args.param@[j].0@),
            forall|j: int|
                0 <= j < args.param@.len() && last_occurrence(args.param@, j) ==> (lookup(
                    bindings@,
                    (#[trigger] args.param@[j]).0@,
                ) matches Some(val) && val@ == args.param@[j].1@),
            chosen matches Some(vs) ==> forall|j: int|
                0 <= j < vs.len() && has_name(req, (#[trigger] vs[j]).0@) ==> has_key(
                    bindings@,
                    vs[j].0@,
                ),
            forall|j: int| 0 <= j < q ==> has_key(bindings@, (#[trigger] req[j])@),
        decreases rn - q,
    {
        if !bindings.contains_key(names[q].as_str()) {
            proof {
                assert(has_name(req, req[q as int]@));
                assert forall|p: int| 0 <= p < q implies covered(
                    (#[trigger] req[p])@,
                    chosen,
                    args.param@,
                ) by {
                    lemma_bound_key_covered(bindings@, chosen, args.param@, req[p]@);
                }
                assert(!covered(req[q as int]@, chosen, args.param@)) by {
                    if chosen is Some {
                        let vs = chosen->Some_0;
                        if has_key(vs, req[q as int]@) {
                            let w = crate::collections::key_index(vs, req[q as int]@);
                            assert(has_name(req, vs[w].0@));
                            assert(has_key(bindings@, vs[w].0@));
                        }
                    }
                    if exists|i: int|
                        0 <= i < args.param@.len() && (#[trigger] args.param@[i]).0@
                            == req[q as int]@ {
                        let w = choose|i: int|
                            0 <= i < args.param@.len() && (#[trigger] args.param@[i]).0@
                                == req[q as int]@;
                        assert(has_key(bindings@, args.param@[w].0@));
                    }
                }
                assert(!resolve_ok_spec(*setup, *args));
            }
            let mut message = "Missing parameter: ".to_owned();
            message.append(names[q].as_str());
            return Err(ApplicationError::CouldNotFind(message));
        }
        q = q + 1;
    }
    proof {
        use_type_invariant(&bindings);
        assert(resolve_ok_spec(*setup, *args)) by {
            assert forall|k: Seq<char>| #[trigger]
                has_name(req, k) implies covered(k, chosen, args.param@) by {
                let w = crate::collections::name_index(req, k);
                assert(0 <= w < req.len() && req[w]@ == k);
                assert(has_key(bindings@, req[w]@));
                lemma_bound_key_covered(bindings@, chosen, args.param@, k);
            }
        }
        assert forall|k: Seq<char>| #[trigger]
            has_name(req, k) implies has_key(bindings@, k) by {
            let w = crate::collections::name_index(req, k);
            assert(0 <= w < req.len() && req[w]@ == k);
            assert(has_key(bindings@, req[w]@));
        }
    }
    Ok(bindings.into_entries())
}

/// Inserting a pair changes what is found under its key and nothing else.
proof fn lemma_insert_lookup(
    before: Seq<(String, String)>,
    after: Seq<(String, String)>,
    k: Seq<char>,
    v: Seq<char>,
)
    requires
        keys_unique(before),
        keys_unique(after),
        !has_key(before, k) ==> after.len() == before.len() + 1 && after.subrange(
            0,
            before.len() as int,
        ) == before && after[before.len() as int].0@ == k && after[before.len() as int].1@ == v,
        has_key(before, k) ==> {
            let ki = crate::collections::key_index(before, k);
            &&& after.len() == before.len()
            &&& after[ki].0 == before[ki].0
            &&& after[ki].1@ == v
            &&& forall|j: int| 0 <= j < before.len() && j != ki ==> after[j] == before[j]
        },
    ensures
        forall|k2: Seq<char>| k2 != k ==> #[trigger] lookup(after, k2) == lookup(before, k2),
        lookup(after, k) matches Some(val) && val@ == v,
{
    assert forall|k2: Seq<char>| k2 != k implies #[trigger] lookup(after, k2) == lookup(
        before,
        k2,
    ) by {
        if has_key(before, k2) {
            let w = crate::collections::key_index(before, k2);
            assert(0 <= w < before.len() && before[w].0@ == k2);
            if has_key(before, k) {
                let ki = crate::collections::key_index(before, k);
                assert(before[ki].0@ == k);
                assert(w != ki);
                assert(after[w] == before[w]);
            } else {
                assert(after[w] == before[w]);
            }
            crate::collections::lemma_lookup_unique(before, w);
            crate::collections::lemma_lookup_unique(after, w);
        } else {
            assert(!has_key(after, k2)) by {
                if has_key(after, k2) {
                    let q = crate::collections::key_index(after, k2);
                    assert(0 <= q < after.len() && after[q].0@ == k2);
                    if has_key(before, k) {
                        let ki = crate::collections::key_index(before, k);
                        if q == ki {
                            assert(after[q].0@ == before[ki].0@);
                        } else {
                            assert(after[q] == before[q]);
                        }
                    } else {
                        if q < before.len() {
                            assert(after[q] == before[q]);
                        } else {
                            assert(after[q].0@ == k);
                        }
                    }
                    assert(false);
                }
            }
            if lookup(after, k2) is Some {
                crate::collections::lemma_lookup_from_some(after, k2, 0);
            }
            if lookup(before, k2) is Some {
                crate::collections::lemma_lookup_from_some(before, k2, 0);
            }
        }
    }
    if has_key(before, k) {
        let ki = crate::collections::key_index(before, k);
        assert(after[ki].0@ == before[ki].0@ && before[ki].0@ == k);
        crate::collections::lemma_lookup_unique(after, ki);
    } else {
        assert(after[before.len() as int].0@ == k);
        crate::collections::lemma_lookup_unique(after, before.len() as int);
    }
}

/// Inserting a pair appends its key when absent and keeps the key order
/// otherwise.
proof fn lemma_insert_keys(
    before: Seq<(String, String)>,
    after: Seq<(String, String)>,
    k: Seq<char>,
    v: Seq<char>,
)
    requires
        !has_key(before, k) ==> after.len() == before.len() + 1 && after.subrange(
            0,
            before.len() as int,
        ) == before && after[before.len() as int].0@ == k && after[before.len() as int].1@ == v,
        has_key(before, k) ==> {
            let ki = crate::collections::key_index(before, k);
            &&& after.len() == before.len()
            &&& after[ki].0 == before[ki].0
            &&& after[ki].1@ == v
            &&& forall|j: int| 0 <= j < before.len() && j != ki ==> after[j] == before[j]
        },
    ensures
        keys_view(before).contains(k) <==> has_key(before, k),
        keys_view(after) == if has_key(before, k) {
            keys_view(before)
        } else {
            keys_view(before).push(k)
        },
{
    assert(keys_view(before).contains(k) <==> has_key(before, k)) by {
        if has_key(before, k) {
            let w = crate::collections::key_index(before, k);
            assert(keys_view(before)[w] == before[w].0@);
        }
        if keys_view(before).contains(k) {
            let w = choose|i: int|
                0 <= i < keys_view(before).len() && keys_view(before)[i] == k;
            assert(keys_view(before)[w] == before[w].0@);
            assert(has_key(before, k));
        }
    }
    if has_key(before, k) {
        let ki = crate::collections::key_index(before, k);
        assert(keys_view(after) =~= keys_view(before)) by {
            assert(forall|j: int|
                0 <= j < before.len() && j != ki ==> after[j] == before[j]);
            assert(after[ki].0@ == before[ki].0@);
        }
    } else {
        assert(keys_view(after) =~= keys_view(before).push(k)) by {
            assert(forall|j: int| 0 <= j < before.len() ==> after[j] == before[j]);
            assert(after[before.len() as int].0@ == k);
        }
    }
}

/// Inserting a pair leaves a map whose entries each carry either an old
/// entry's texts or the inserted texts, keeps every old key, and carries the
/// inserted key.
proof fn lemma_insert_effects(
    before: Seq<(String, String)>,
    after: Seq<(String, String)>,
    k: Seq<char>,
    v: Seq<char>,
)
    requires
        !has_key(before, k) ==> after.len() == before.len() + 1 && after.subrange(
            0,
            before.len() as int,
        ) == before && after[before.len() as int].0@ == k && after[before.len() as int].1@ == v,
        has_key(before, k) ==> {
            let ki = crate::collections::key_index(before, k);
            &&& after.len() == before.len()
            &&& after[ki].0 == before[ki].0
            &&& after[ki].1@ == v
            &&& forall|j: int| 0 <= j < before.len() && j != ki ==> after[j] == before[j]
        },
        keys_unique(before),
    ensures
        forall|p: int|
            0 <= p < after.len() ==> ((exists|q: int|
                0 <= q < before.len() && (#[trigger] before[q]).0@ == (#[trigger] after[p]).0@
                    && before[q].1@ == after[p].1@) || (after[p].0@ == k && after[p].1@ == v)),
        forall|q: int| 0 <= q < before.len() ==> has_key(after, (#[trigger] before[q]).0@),
        has_key(after, k),
{
    assert forall|q: int| 0 <= q < before.len() implies has_key(after, (#[trigger] before[q]).0@)
        by {
        if has_key(before, k) {
            let ki = crate::collections::key_index(before, k);
            if q == ki {
                assert(after[ki].0@ == before[ki].0@);
            } else {
                assert(after[q] == before[q]);
                assert(after[q].0@ == before[q].0@);
            }
        } else {
            assert(after[q] == before[q]);
            assert(after[q].0@ == before[q].0@);
        }
    }
    assert(has_key(after, k)) by {
        if has_key(before, k) {
            let ki = crate::collections::key_index(before, k);
            assert(after[ki].0@ == before[ki].0@ && before[ki].0@ == k);
        } else {
            assert(after[before.len() as int].0@ == k);
        }
    }
    assert forall|p: int| 0 <= p < after.len() implies ((exists|q: int|
        0 <= q < before.len() && (#[trigger] before[q]).0@ == (#[trigger] after[p]).0@
            && before[q].1@ == after[p].1@) || (after[p].0@ == k && after[p].1@ == v)) by {
        if has_key(before, k) {
            let ki = crate::collections::key_index(before, k);
            if p == ki {
                assert(before[ki].0@ == k);
                assert(after[p].0@ == k && after[p].1@ == v);
            } else {
                assert(after[p] == before[p]);
                assert(before[p].0@ == after[p].0@ && before[p].1@ == after[p].1@);
            }
        } else {
            if p < before.len() {
                assert(after[p] == before[p]);
                assert(before[p].0@ == after[p].0@ && before[p].1@ == after[p].1@);
            } else {
                assert(after[p].0@ == k && after[p].1@ == v);
            }
        }
    }
}

/// No later pair before position `end` carries the same key as the pair at
/// `j`.
pub open spec fn last_before(user: Seq<(String, String)>, j: int, end: int) -> bool {
    forall|q: int| j < q < end ==> (#[trigger] user[q]).0@ != user[j].0@
}

/// The pair at `j` is the last supplied pair carrying its key.
pub open spec fn last_occurrence(user: Seq<(String, String)>, j: int) -> bool {
    last_before(user, j, user.len() as int)
}

/// The binding pair stems from the supplied pairs or from the chosen
/// predefined set, key and value text alike.
pub open spec fn binding_from_pair(
    preset: Option<Seq<(String, String)>>,
    user: Seq<(String, String)>,
    b: (String, String),
) -> bool {
    ||| exists|j: int|
        0 <= j < user.len() && (#[trigger] user[j]).0@ == b.0@ && user[j].1@ == b.1@
    ||| (preset matches Some(vs) && (lookup(vs, b.0@) matches Some(v) && v@ == b.1@))
}

/// The binding pair stems from the sources the arguments name.
pub open spec fn binding_from_sources(
    setup: SetupConfiguration,
    args: Args,
    b: (String, String),
) -> bool {
    binding_from_pair(chosen_of(setup, args), args.param@, b)
}

/// A key bound in a map whose entries all stem from the two sources is
/// covered by the sources.
proof fn lemma_bound_key_covered(
    bs: Seq<(String, String)>,
    preset: Option<Seq<(String, String)>>,
    user: Seq<(String, String)>,
    k: Seq<char>,
)
    requires
        has_key(bs, k),
        forall|p: int| 0 <= p < bs.len() ==> binding_from_pair(preset, user, #[trigger] bs[p]),
    ensures
        covered(k, preset, user),
{
    let w = crate::collections::key_index(bs, k);
    assert(0 <= w < bs.len() && bs[w].0@ == k);
    assert(binding_from_pair(preset, user, bs[w]));
    if exists|j: int|
        0 <= j < user.len() && (#[trigger] user[j]).0@ == bs[w].0@ && user[j].1@ == bs[w].1@ {
        let j = choose|j: int|
            0 <= j < user.len() && (#[trigger] user[j]).0@ == bs[w].0@ && user[j].1@
                == bs[w].1@;
        assert(user[j].0@ == k);
    } else {
        let vs = preset->Some_0;
        assert(lookup(vs, bs[w].0@) matches Some(v) && v@ == bs[w].1@);
        crate::collections::lemma_lookup_from_some(vs, k, 0);
    }
}

/// Parameter completeness, failure side: when resolution fails although the
/// named predefined set exists (when one is named) and every supplied pair
/// names a required parameter, some required parameter is covered by
/// neither the predefined set nor the supplied pairs.
pub proof fn lemma_resolver_failure(setup: SetupConfiguration, args: Args)
    requires
        !resolve_ok_spec(setup, args),
        match args.predefined_set {
            Option::Some(n) => chosen_preset(setup, n@) is Some,
            Option::None => true,
        },
        forall|i: int|
            0 <= i < args.param@.len() ==> has_name(required_of(setup), (#[trigger] args.param@[i]).0@),
    ensures
        exists|k: Seq<char>| #[trigger]
            has_name(required_of(setup), k) && !covered(
                k,
                match args.predefined_set {
                    Option::Some(n) => chosen_preset(setup, n@),
                    Option::None => Option::None,
                },
                args.param@,
            ),
{
}

} // verus!
