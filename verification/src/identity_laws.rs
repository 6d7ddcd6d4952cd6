//! Laws of the device identity: what is written to the configuration file is
//! what the next launch reads back.

use crate::config::{
    chosen_id, chosen_keys, chosen_salt, chosen_uuid, config_of, entry_of, field_in, identity_text,
    is_device_id, lemma_keys_differ, persisted_text, saved_field, saved_keys, setting, BakedView, FreshView, ID_MAX,
    ID_MIN, SALT_BYTES,
};
use crate::encoding::{hex_of, lemma_hex_round_trip};
use crate::login::{login_accepted, remembered_password, response_to};
use crate::text::{
    all_digits, decimal, first_index, is_clean, is_digit, is_white_space, lemma_decimal,
    lemma_first_index, lemma_first_index_is, lemma_lines_hold_no_line_feed, lemma_lines_join,
    lemma_lines_step, lemma_solid_is_clean, lemma_trimmed, lines_of, trimmed, trimmed_end,
    trimmed_start, without_cr,
};
use vstd::prelude::*;

verus! {

/// The value of a field is clean, unless it is absent or blank.
proof fn lemma_field_is_clean(lines: Seq<Seq<char>>, key: Seq<char>)
    requires
        forall|i: int, j: int|
            0 <= i < lines.len() && 0 <= j < lines[i].len() ==> #[trigger] lines[i][j] != '\n',
        field_in(lines, key).len() > 0,
    ensures
        is_clean(field_in(lines, key)),
    decreases lines.len(),
{
    let line = lines.last();
    let n = lines.len() - 1;
    let found = match entry_of(line) {
        Some((k, v)) => k == key,
        None => false,
    };
    if found {
        lemma_first_index(line, '=');
        let raw = line.skip(first_index(line, '=') + 1);
        let v = trimmed(raw);
        lemma_trimmed(raw);
        let (a, b) = choose|a: int, b: int|
            0 <= a <= b <= raw.len() && trimmed(raw) == #[trigger] raw.subrange(a, b);
        assert forall|i: int| 0 <= i < v.len() implies v[i] != '\n' by {
            let j = first_index(line, '=') + 1 + a + i;
            assert(v[i] == lines[n][j]);
        }
    } else {
        assert forall|i: int, j: int|
            0 <= i < lines.drop_last().len() && 0 <= j
                < lines.drop_last()[i].len() implies #[trigger] lines.drop_last()[i][j] != '\n' by {
            assert(lines.drop_last()[i] == lines[i]);
            assert(lines[i][j] != '\n');
        }
        lemma_field_is_clean(lines.drop_last(), key);
    }
}

/// A saved value is clean, unless it is absent or blank.
pub proof fn lemma_saved_field_is_clean(content: Option<Seq<char>>, key: Seq<char>)
    requires
        saved_field(content, key).len() > 0,
    ensures
        is_clean(saved_field(content, key)),
{
    let text = content->0;
    lemma_lines_hold_no_line_feed(text);
    lemma_field_is_clean(lines_of(text), key);
}

/// A line `key=value` with a clean key without `=` and a clean value is read as
/// that key and value.
proof fn lemma_entry(key: Seq<char>, value: Seq<char>)
    requires
        is_clean(key),
        is_clean(value),
        forall|i: int| 0 <= i < key.len() ==> key[i] != '=',
    ensures
        entry_of(without_cr(key + seq!['='] + value)) == Some((key, value)),
        forall|i: int|
            0 <= i < (key + seq!['='] + value).len() ==> (key + seq!['='] + value)[i] != '\n',
{
    let line = key + seq!['='] + value;
    assert(line.last() == value.last());
    assert(!is_white_space(value.last())) by {
        lemma_ends(value);
    }
    assert(without_cr(line) == line);
    lemma_first_index_is(line, '=', key.len() as int);
    assert(line.take(key.len() as int) == key);
    assert(line.skip(key.len() as int + 1) == value);
}

/// A clean text neither begins nor ends with white space.
proof fn lemma_ends(s: Seq<char>)
    requires
        is_clean(s),
    ensures
        !is_white_space(s[0]),
        !is_white_space(s.last()),
{
    lemma_trimmed_len(s);
    if is_white_space(s[0]) {
        lemma_trimmed_len(s.drop_first());
        assert(trimmed_start(s) == trimmed_start(s.drop_first()));
    } else if is_white_space(s.last()) {
        assert(trimmed_start(s) == s);
        assert(trimmed_end(s) == trimmed_end(s.drop_last()));
        lemma_trimmed_end_len(s.drop_last());
    }
}

proof fn lemma_trimmed_end_len(s: Seq<char>)
    ensures
        trimmed_end(s).len() <= s.len(),
    decreases s.len(),
{
    if s.len() > 0 && is_white_space(s.last()) {
        lemma_trimmed_end_len(s.drop_last());
    }
}

proof fn lemma_trimmed_start_len(s: Seq<char>)
    ensures
        trimmed_start(s).len() <= s.len(),
    decreases s.len(),
{
    if s.len() > 0 && is_white_space(s[0]) {
        lemma_trimmed_start_len(s.drop_first());
    }
}

proof fn lemma_trimmed_len(s: Seq<char>)
    ensures
        trimmed(s).len() <= s.len(),
{
    lemma_trimmed_start_len(s);
    lemma_trimmed_end_len(trimmed_start(s));
}

/// The keys of a configuration file are clean and hold no `=`; the separators
/// between the values spell the keys.
proof fn lemma_keys()
    ensures
        is_clean("id"@) && is_clean("salt"@) && is_clean("sk"@) && is_clean("pk"@) && is_clean(
            "uuid"@,
        ),
        forall|i: int| 0 <= i < "id"@.len() ==> "id"@[i] != '=',
        forall|i: int| 0 <= i < "salt"@.len() ==> "salt"@[i] != '=',
        forall|i: int| 0 <= i < "sk"@.len() ==> "sk"@[i] != '=',
        forall|i: int| 0 <= i < "pk"@.len() ==> "pk"@[i] != '=',
        forall|i: int| 0 <= i < "uuid"@.len() ==> "uuid"@[i] != '=',
        "id="@ == "id"@ + seq!['='],
        "\nsalt="@ == seq!['\n'] + "salt"@ + seq!['='],
        "\nsk="@ == seq!['\n'] + "sk"@ + seq!['='],
        "\npk="@ == seq!['\n'] + "pk"@ + seq!['='],
        "\nuuid="@ == seq!['\n'] + "uuid"@ + seq!['='],
        "\n"@ == seq!['\n'],
{
    reveal_strlit("id");
    reveal_strlit("salt");
    reveal_strlit("sk");
    reveal_strlit("pk");
    reveal_strlit("uuid");
    reveal_strlit("id=");
    reveal_strlit("\nsalt=");
    reveal_strlit("\nsk=");
    reveal_strlit("\npk=");
    reveal_strlit("\nuuid=");
    reveal_strlit("\n");
    lemma_solid_is_clean("id"@);
    lemma_solid_is_clean("salt"@);
    lemma_solid_is_clean("sk"@);
    lemma_solid_is_clean("pk"@);
    lemma_solid_is_clean("uuid"@);
    assert("id="@ == "id"@ + seq!['=']);
    assert("\nsalt="@ == seq!['\n'] + "salt"@ + seq!['=']);
    assert("\nsk="@ == seq!['\n'] + "sk"@ + seq!['=']);
    assert("\npk="@ == seq!['\n'] + "pk"@ + seq!['=']);
    assert("\nuuid="@ == seq!['\n'] + "uuid"@ + seq!['=']);
    assert("\n"@ == seq!['\n']);
}

/// Hexadecimal text is clean.
proof fn lemma_hex_is_clean(data: Seq<u8>)
    requires
        data.len() > 0,
    ensures
        is_clean(hex_of(data)),
{
    let s = hex_of(data);
    assert forall|i: int| 0 <= i < s.len() implies !is_white_space(#[trigger] s[i]) by {
        let b = data[i / 2] as int;
        assert(0 <= b / 16 < 16 && 0 <= b % 16 < 16);
    }
    lemma_solid_is_clean(s);
}

/// The last field with a key decides, whatever stands before it.
proof fn lemma_field_last(before: Seq<Seq<char>>, line: Seq<char>, key: Seq<char>)
    ensures
        match entry_of(line) {
            Some((k, v)) => if k == key {
                field_in(before.push(line), key) == v
            } else {
                field_in(before.push(line), key) == field_in(before, key)
            },
            None => field_in(before.push(line), key) == field_in(before, key),
        },
{
    assert(before.push(line).drop_last() == before);
    assert(before.push(line).last() == line);
}

/// A configuration file gives back the salt, the keys and the UUID that were
/// written to it, and the ID if it is clean.
pub proof fn lemma_identity_reads_back(
    id: Seq<char>,
    salt: Seq<char>,
    sk: Seq<u8>,
    pk: Seq<u8>,
    uuid: Seq<char>,
)
    requires
        is_clean(salt),
        is_clean(uuid),
        sk.len() > 0,
        pk.len() > 0,
    ensures
        ({
            let text = Some(identity_text(id, salt, sk, pk, uuid));
            &&& is_clean(id) ==> saved_field(text, "id"@) == id
            &&& saved_field(text, "salt"@) == salt
            &&& saved_field(text, "sk"@) == hex_of(sk)
            &&& saved_field(text, "pk"@) == hex_of(pk)
            &&& saved_field(text, "uuid"@) == uuid
        }),
{
    lemma_keys();
    lemma_keys_differ();
    lemma_hex_is_clean(sk);
    lemma_hex_is_clean(pk);
    let l0 = "id"@ + seq!['='] + id;
    let l1 = "salt"@ + seq!['='] + salt;
    let l2 = "sk"@ + seq!['='] + hex_of(sk);
    let l3 = "pk"@ + seq!['='] + hex_of(pk);
    let l4 = "uuid"@ + seq!['='] + uuid;
    lemma_entry("salt"@, salt);
    lemma_entry("sk"@, hex_of(sk));
    lemma_entry("pk"@, hex_of(pk));
    lemma_entry("uuid"@, uuid);
    let nl = seq!['\n'];
    let none = Seq::<char>::empty();
    let r4 = l4 + nl + none;
    let r3 = l3 + nl + r4;
    let r2 = l2 + nl + r3;
    let r1 = l1 + nl + r2;
    let text = identity_text(id, salt, sk, pk, uuid);
    assert(text == l0 + nl + r1);
    lemma_lines_step(l4, none);
    lemma_lines_step(l3, r4);
    lemma_lines_step(l2, r3);
    lemma_lines_step(l1, r2);
    lemma_lines_join(l0, r1);
    assert(lines_of(none) == Seq::<Seq<char>>::empty());
    let b0 = lines_of(l0 + nl);
    let b1 = b0.push(without_cr(l1));
    let b2 = b1.push(without_cr(l2));
    let b3 = b2.push(without_cr(l3));
    let b4 = b3.push(without_cr(l4));
    assert(lines_of(r1) == seq![without_cr(l1), without_cr(l2), without_cr(l3), without_cr(l4)]);
    assert(lines_of(text) == b4);
    assert forall|key: Seq<char>| true implies ({
        &&& key != "salt"@ ==> #[trigger] field_in(b1, key) == field_in(b0, key)
        &&& key != "sk"@ ==> field_in(b2, key) == field_in(b1, key)
        &&& key != "pk"@ ==> field_in(b3, key) == field_in(b2, key)
        &&& key != "uuid"@ ==> field_in(b4, key) == field_in(b3, key)
    }) by {
        lemma_field_last(b0, without_cr(l1), key);
        lemma_field_last(b1, without_cr(l2), key);
        lemma_field_last(b2, without_cr(l3), key);
        lemma_field_last(b3, without_cr(l4), key);
    }
    lemma_field_last(b0, without_cr(l1), "salt"@);
    lemma_field_last(b1, without_cr(l2), "sk"@);
    lemma_field_last(b2, without_cr(l3), "pk"@);
    lemma_field_last(b3, without_cr(l4), "uuid"@);
    assert(field_in(b1, "sk"@) == field_in(b0, "sk"@));
    assert(field_in(b1, "pk"@) == field_in(b0, "pk"@));
    assert(field_in(b1, "id"@) == field_in(b0, "id"@));
    assert(field_in(b4, "salt"@) == salt);
    if is_clean(id) {
        lemma_entry("id"@, id);
        lemma_lines_step(l0, none);
        assert(l0 + nl + none == l0 + nl);
        assert(b0 == Seq::<Seq<char>>::empty().push(without_cr(l0)));
        lemma_field_last(Seq::empty(), without_cr(l0), "id"@);
    }
}

/// A device ID has nine characters, all digits.
pub proof fn law_device_id_has_nine_digits(id: Seq<char>)
    requires
        is_device_id(id),
    ensures
        id.len() == 9,
        all_digits(id),
        id[0] != '0',
{
    let n = choose|n: u64| ID_MIN <= n <= ID_MAX && id == #[trigger] decimal(n as nat);
    lemma_decimal(n as nat);
    reveal_with_fuel(decimal, 10);
}

/// A drawn value is clean.
proof fn lemma_fresh_is_clean(fresh: FreshView)
    requires
        fresh.generated(),
    ensures
        fresh.id matches Some(id) ==> is_clean(id),
        fresh.salt matches Some(salt) ==> is_clean(salt),
        fresh.uuid matches Some(uuid) ==> is_clean(uuid),
{
    if let Some(id) = fresh.id {
        law_device_id_has_nine_digits(id);
        assert forall|i: int| 0 <= i < id.len() implies !is_white_space(#[trigger] id[i]) by {
            assert(is_digit(id[i]));
        }
        lemma_solid_is_clean(id);
    }
    if let Some(salt) = fresh.salt {
        let bytes = choose|bytes: Seq<u8>| bytes.len() == SALT_BYTES && salt == #[trigger] hex_of(bytes);
        lemma_hex_is_clean(bytes);
    }
    if let Some(uuid) = fresh.uuid {
        assert forall|i: int| 0 <= i < uuid.len() implies !is_white_space(#[trigger] uuid[i]) by {
            if i != 8 && i != 13 && i != 18 && i != 23 {
                assert('0' <= uuid[i] <= '9' || 'a' <= uuid[i] <= 'f');
            }
        }
        lemma_solid_is_clean(uuid);
    }
}

/// The identity survives a restart: a launch that reads the configuration file
/// of an earlier one has the same salt, key pair and UUID, whatever is baked
/// into either binary. It has the same ID if both have the same one baked in or
/// none, or if only the earlier one had one baked in, which stands on one line
/// without white space around it. It then draws nothing but a password, and
/// writes the same file again.
pub proof fn law_identity_survives_restart(
    baked: BakedView,
    content: Option<Seq<char>>,
    fresh: FreshView,
    baked_later: BakedView,
    fresh_later: FreshView,
)
    requires
        fresh.covers(baked, content),
        fresh.generated(),
        fresh_later.covers(baked_later, Some(persisted_text(baked, content, fresh))),
    ensures
        ({
            let first = config_of(baked, content, fresh);
            let kept = Some(persisted_text(baked, content, fresh));
            let later = config_of(baked_later, kept, fresh_later);
            &&& later.password_salt == first.password_salt
            &&& later.sign_sk == first.sign_sk
            &&& later.sign_pk == first.sign_pk
            &&& later.uuid == first.uuid
            &&& fresh_later.salt is None
            &&& fresh_later.keys is None
            &&& fresh_later.uuid is None
            &&& setting(baked_later.id) == setting(baked.id) || (setting(baked_later.id) is None
                && is_clean(first.id)) ==> {
                &&& later.id == first.id
                &&& fresh_later.id is None
                &&& persisted_text(baked_later, kept, fresh_later) == kept->0
            }
        }),
{
    lemma_fresh_is_clean(fresh);
    let id = chosen_id(baked, content, fresh);
    let salt = chosen_salt(content, fresh);
    let (sk, pk) = chosen_keys(content, fresh);
    let uuid = chosen_uuid(content, fresh);
    if fresh.salt is None {
        lemma_saved_field_is_clean(content, "salt"@);
    }
    if fresh.uuid is None {
        lemma_saved_field_is_clean(content, "uuid"@);
    }
    if setting(baked.id) is None && fresh.id is None {
        lemma_saved_field_is_clean(content, "id"@);
    }
    lemma_identity_reads_back(id, salt, sk, pk, uuid);
    lemma_hex_round_trip(sk);
    lemma_hex_round_trip(pk);
    let kept = Some(persisted_text(baked, content, fresh));
    assert(saved_keys(kept) == Some((sk, pk)));
}

/// The one-time password is not kept: the configuration file does not depend on
/// which password was drawn, or on which one is baked in.
pub proof fn law_password_is_not_persisted(
    baked: BakedView,
    content: Option<Seq<char>>,
    fresh: FreshView,
    other_baked_password: Option<Seq<char>>,
    other_fresh_password: Option<Seq<char>>,
)
    ensures
        persisted_text(baked, content, fresh) == persisted_text(
            BakedView { password: other_baked_password, ..baked },
            content,
            FreshView { password: other_fresh_password, ..fresh },
        ),
{
}

/// The configuration file has no say in the password: a legacy `password` line,
/// or any other text, leaves it as it is.
pub proof fn law_password_ignores_the_file(
    baked: BakedView,
    content: Option<Seq<char>>,
    other_content: Option<Seq<char>>,
    fresh: FreshView,
    other_fresh: FreshView,
)
    requires
        fresh.password == other_fresh.password,
    ensures
        config_of(baked, content, fresh).password == config_of(
            baked,
            other_content,
            other_fresh,
        ).password,
{
}

/// A password that is baked in stays valid for a controller that remembers it:
/// what it kept from a session before a restart is accepted in every session
/// after it.
pub proof fn law_remembered_password_survives_restart(
    baked: BakedView,
    content: Option<Seq<char>>,
    fresh: FreshView,
    fresh_later: FreshView,
    challenge: Seq<char>,
)
    requires
        fresh.covers(baked, content),
        fresh.generated(),
        fresh_later.covers(baked, Some(persisted_text(baked, content, fresh))),
        setting(baked.password) is Some,
    ensures
        ({
            let first = config_of(baked, content, fresh);
            let later = config_of(
                baked,
                Some(persisted_text(baked, content, fresh)),
                fresh_later,
            );
            let remembered = remembered_password(first.password, first.password_salt);
            login_accepted(
                later,
                later.password_salt,
                challenge,
                response_to(remembered, challenge),
            )
        }),
{
    law_identity_survives_restart(baked, content, fresh, baked, fresh_later);
}

} // verus!
