//! Certificates, checked literal by literal: the base field modulus is prime, and neither the
//! constant of the G1 curve nor the norm of that of the G2 curve, up to sign, is a cube.
use vstd::prelude::*;

use vstd::arithmetic::div_mod::lemma_mul_mod_noop_general;
#[allow(unused_imports)]
use vstd::arithmetic::power::{lemma_pow0, lemma_pow1, lemma_pow_adds, pow};

#[allow(unused_imports)]
use crate::field::q;
#[allow(unused_imports)]
use crate::prime::{
    divides, is_prime, lemma_mod_factor, lemma_prime_by_order, lemma_prime_by_two,
    lemma_prime_of_bound, TwoPrimes,
};

verus! {

/// What a binary digit `d` of an exponent makes of a power: a squaring, and a product where
/// the digit is one.
#[verifier::opaque]
spec fn bit_step(n: int, b: int, d: nat, v: int, w: int) -> bool {
    if d == 1 {
        ((v * v) * b) % n == w
    } else {
        (v * v) % n == w
    }
}

/// One binary digit of an exponent.
proof fn lemma_bit(n: int, b: int, e: nat, d: nat, v: int, w: int)
    requires
        n > 1,
        pow(b, e) % n == v,
        d < 2,
        bit_step(n, b, d, v, w),
    ensures
        pow(b, 2 * e + d) % n == w,
{
    reveal(bit_step);
    let x = pow(b, e);
    lemma_pow_adds(b, e, e);
    lemma_mul_mod_noop_general(x, x, n);
    if d == 1 {
        lemma_pow_adds(b, 2 * e, 1);
        lemma_pow1(b);
        lemma_mod_factor(x * x, v * v, b, n);
    }
}

/// Four binary digits `m` of an exponent.
proof fn lemma_nibble(n: int, b: int, e: nat, m: nat, v: int, v1: int, v2: int, v3: int, w: int)
    requires
        n > 1,
        pow(b, e) % n == v,
        m < 16,
        bit_step(n, b, m / 8, v, v1),
        bit_step(n, b, m / 4 % 2, v1, v2),
        bit_step(n, b, m / 2 % 2, v2, v3),
        bit_step(n, b, m % 2, v3, w),
    ensures
        pow(b, 16 * e + m) % n == w,
{
    lemma_bit(n, b, e, m / 8, v, v1);
    lemma_bit(n, b, 2 * e + m / 8, m / 4 % 2, v1, v2);
    assert(2 * (2 * e + m / 8) + m / 4 % 2 == 4 * e + m / 4);
    lemma_bit(n, b, 4 * e + m / 4, m / 2 % 2, v2, v3);
    assert(2 * (4 * e + m / 4) + m / 2 % 2 == 8 * e + m / 2);
    lemma_bit(n, b, 8 * e + m / 2, m % 2, v3, w);
}

/// Eight binary digits of an exponent, the upper four `h` and the lower four `l`.
proof fn lemma_byte(
    n: int,
    b: int,
    e: nat,
    h: nat,
    l: nat,
    v: int,
    v1: int,
    v2: int,
    v3: int,
    v4: int,
    v5: int,
    v6: int,
    v7: int,
    w: int,
)
    requires
        n > 1,
        pow(b, e) % n == v,
        h < 16,
        l < 16,
        bit_step(n, b, h / 8, v, v1),
        bit_step(n, b, h / 4 % 2, v1, v2),
        bit_step(n, b, h / 2 % 2, v2, v3),
        bit_step(n, b, h % 2, v3, v4),
        bit_step(n, b, l / 8, v4, v5),
        bit_step(n, b, l / 4 % 2, v5, v6),
        bit_step(n, b, l / 2 % 2, v6, v7),
        bit_step(n, b, l % 2, v7, w),
    ensures
        pow(b, 256 * e + 16 * h + l) % n == w,
{
    lemma_nibble(n, b, e, h, v, v1, v2, v3, v4);
    lemma_nibble(n, b, 16 * e + h, l, v4, v5, v6, v7, w);
}

/// 13 is prime.
proof fn lemma_prime_13()
    ensures
        is_prime(13),
{
    assert forall|d: int| d > 1 && #[trigger] divides(d, 13) implies d >= 4 by {
        assert(13int % 2 != 0);
        assert(13int % 3 != 0);
    }
    lemma_prime_of_bound(13, 4);
}

/// 19 is prime.
proof fn lemma_prime_19()
    ensures
        is_prime(19),
{
    assert forall|d: int| d > 1 && #[trigger] divides(d, 19) implies d >= 5 by {
        assert(19int % 2 != 0);
        assert(19int % 3 != 0);
        assert(19int % 4 != 0);
    }
    lemma_prime_of_bound(19, 5);
}

/// 127 is prime.
proof fn lemma_prime_127()
    ensures
        is_prime(127),
{
    assert forall|d: int| d > 1 && #[trigger] divides(d, 127) implies d >= 12 by {
        assert(127int % 2 != 0);
        assert(127int % 3 != 0);
        assert(127int % 4 != 0);
        assert(127int % 5 != 0);
        assert(127int % 6 != 0);
        assert(127int % 7 != 0);
        assert(127int % 8 != 0);
        assert(127int % 9 != 0);
        assert(127int % 10 != 0);
        assert(127int % 11 != 0);
    }
    lemma_prime_of_bound(127, 12);
}

/// 271 is prime.
proof fn lemma_prime_271()
    ensures
        is_prime(271),
{
    assert forall|d: int| d > 1 && #[trigger] divides(d, 271) implies d >= 17 by {
        assert(271int % 2 != 0);
        assert(271int % 3 != 0);
        assert(271int % 4 != 0);
        assert(271int % 5 != 0);
        assert(271int % 6 != 0);
        assert(271int % 7 != 0);
        assert(271int % 8 != 0);
        assert(271int % 9 != 0);
        assert(271int % 10 != 0);
        assert(271int % 11 != 0);
        assert(271int % 12 != 0);
        assert(271int % 13 != 0);
        assert(271int % 14 != 0);
        assert(271int % 15 != 0);
        assert(271int % 16 != 0);
    }
    lemma_prime_of_bound(271, 17);
}

/// A power of an element of prime order modulo 3557.
proof fn lemma_order_3557()
    ensures
        pow(2894, 127) % 3557 == 1,
{
    reveal(bit_step);
    lemma_pow0(2894);
    lemma_byte(3557, 2894, 0, 7, 15, 1, 1, 2894, 1434, 2059, 1067, 2092, 2219, 1);
}

/// 3557 is prime.
proof fn lemma_prime_3557()
    ensures
        is_prime(3557),
{
    lemma_prime_127();
    lemma_order_3557();
    lemma_prime_by_order(
        3557,
        127,
        2894,
        1741,
        -1416,
    );
}

/// A power of an element modulo 1263766531.
proof fn lemma_first_p31()
    ensures
        pow(383634452, 13) % 1263766531 == 142661317,
{
    reveal(bit_step);
    lemma_pow0(383634452);
    lemma_byte(
        1263766531, 383634452, 0, 0, 13, 1, 1, 1, 1, 1, 383634452, 718702728, 177101891,
        142661317,
    );
}

/// A power of that element modulo 1263766531.
proof fn lemma_second_p31()
    ensures
        pow(383634452, 3557) % 1263766531 == 733610513,
{
    reveal(bit_step);
    lemma_pow0(383634452);
    lemma_byte(
        1263766531, 383634452, 0, 0, 13, 1, 1, 1, 1, 1, 383634452, 718702728, 177101891,
        142661317,
    );
    lemma_byte(
        1263766531, 383634452, 13, 14, 5, 142661317, 204619808, 891636645, 880843058, 249341256,
        471486393, 336448572, 842058344, 733610513,
    );
}

/// A power of its power modulo 1263766531.
proof fn lemma_both_p31()
    ensures
        pow(142661317, 3557) % 1263766531 == 1,
{
    reveal(bit_step);
    lemma_pow0(142661317);
    lemma_byte(
        1263766531, 142661317, 0, 0, 13, 1, 1, 1, 1, 1, 142661317, 653650131, 567032575,
        792415572,
    );
    lemma_byte(
        1263766531, 142661317, 13, 14, 5, 792415572, 1157420179, 402959909, 1253087539,
        1105911686, 1068397086, 341436463, 43346781, 1,
    );
}

/// 1263766531 is prime.
proof fn lemma_prime_p31()
    ensures
        is_prime(1263766531),
{
    lemma_prime_13();
    lemma_prime_3557();
    lemma_first_p31();
    lemma_second_p31();
    lemma_both_p31();
    let w = TwoPrimes {
        b: 383634452,
        c: 142661317,
        d: 733610513,
        cu: -179030774,
        cv: 20210035,
        du: -618211387,
        dv: 358868795,
        s: -1368,
        t: 5,
    };
    assert(13 * 3557 == 46241);
    lemma_prime_by_two(1263766531, 13, 3557, 46241, w);
}

/// A power of an element of prime order modulo 35385462869.
proof fn lemma_order_p36()
    ensures
        pow(268435456, 1263766531) % 0x83d235055int == 1,
{
    reveal(bit_step);
    lemma_pow0(268435456);
    lemma_byte(
        0x83d235055int, 268435456, 0, 4, 11, 1, 1, 268435456, 0x412290883int, 0x42e8429a4int,
        0x79a51c373int, 0x6b40236d4int, 0x56d16b6e1int, 0x4c9aebd59int,
    );
    lemma_byte(
        0x83d235055int, 268435456, 75, 5, 3, 0x4c9aebd59int, 0x67ec0215dint, 0x1d0266658int,
        0x635c360ccint, 0x1b97f275bint, 0x59af3b9d6int, 0x400926bdaint, 570922341,
        0x2ff2e9982int,
    );
    lemma_byte(
        0x83d235055int, 268435456, 19283, 8, 12, 0x2ff2e9982int, 0x4e1879459int, 0x207763581int,
        0x198ec2a13int, 0x7068fbda3int, 0x154cc4aadint, 0x4004d5046int, 0x4be9a2992int,
        0x3a584a476int,
    );
    lemma_byte(
        0x83d235055int, 268435456, 4936588, 0, 3, 0x3a584a476int, 0x37d0a555bint, 0x3c9124d47int,
        0x4d15c7fa8int, 0x2ce400c4cint, 0x7d5c48cc8int, 0x49f743ba0int, 0x5ca99f6d4int, 1,
    );
}

/// 35385462869 is prime.
proof fn lemma_prime_p36()
    ensures
        is_prime(0x83d235055int),
{
    lemma_prime_p31();
    lemma_order_p36();
    lemma_prime_by_order(
        0x83d235055int,
        1263766531,
        268435456,
        -0x111ca4ab8int,
        34845989,
    );
}

/// A power of an element of prime order modulo 2480874801745591.
proof fn lemma_order_p52()
    ensures
        pow(0x46917dea2aafdint, 0x83d235055nat) % 0x8d057ad4a4eb7int == 1,
{
    reveal(bit_step);
    lemma_pow0(0x46917dea2aafdint);
    lemma_byte(
        0x8d057ad4a4eb7int, 0x46917dea2aafdint, 0, 0, 8, 1, 1, 1, 1, 1, 0x46917dea2aafdint,
        0x5cde6a8cafccbint, 0x7a7279790713bint, 0x13a882ec05c4aint,
    );
    lemma_byte(
        0x8d057ad4a4eb7int, 0x46917dea2aafdint, 8, 3, 13, 0x13a882ec05c4aint, 0x16f05d1daa43dint,
        0x8a6f4a26d0445int, 0x6fe8b7feee777int, 0x5e824b97c302dint, 0x33956668a5b0eint,
        0x74f89dbb5df9bint, 0x83d29763a1425int, 0xf103e0746953int,
    );
    lemma_byte(
        0x8d057ad4a4eb7int, 0x46917dea2aafdint, 2109, 2, 3, 0xf103e0746953int,
        0x2a3ef27fd9274int, 0x5bc27e9dbb0fint, 0x4d9919982aa87int, 0x21c9879597da7int,
        0x5e277bd388280int, 0x55d55e34a6d50int, 0x393e30ff4edabint, 0x5ee0e0356d163int,
    );
    lemma_byte(
        0x8d057ad4a4eb7int, 0x46917dea2aafdint, 539939, 5, 0, 0x5ee0e0356d163int,
        0x2c1c5f5d79a0aint, 0x23e74daac0d75int, 0x1c141a428092aint, 0x2a1f0bd1429c1int,
        0x1e8e661ca356aint, 0x7d6840b868663int, 0x3f1e961932cc6int, 0x1623b31a817e2int,
    );
    lemma_byte(
        0x8d057ad4a4eb7int, 0x46917dea2aafdint, 138224464, 5, 5, 0x1623b31a817e2int,
        0x3135e2db14f93int, 0x3b60e9787adccint, 0x41653a44d205cint, 0x274d48ed34d55int,
        0x2396bab8c823dint, 0x50b176c9936bint, 0x10a7a659165f0int, 1,
    );
}

/// 2480874801745591 is prime.
proof fn lemma_prime_p52()
    ensures
        is_prime(0x8d057ad4a4eb7int),
{
    lemma_prime_p36();
    lemma_order_p52();
    lemma_prime_by_order(
        0x8d057ad4a4eb7int,
        0x83d235055nat,
        0x46917dea2aafdint,
        0x36edde05c689int,
        -0x1b7cadfe52fdint,
    );
}

/// A power of an element modulo 1853641.
proof fn lemma_first_p21()
    ensures
        pow(1278987, 19) % 1853641 == 92730,
{
    reveal(bit_step);
    lemma_pow0(1278987);
    lemma_byte(1853641, 1278987, 0, 1, 3, 1, 1, 1, 1, 1278987, 1075566, 1555025, 615612, 92730);
}

/// A power of that element modulo 1853641.
proof fn lemma_second_p21()
    ensures
        pow(1278987, 271) % 1853641 == 83813,
{
    reveal(bit_step);
    lemma_pow0(1278987);
    lemma_byte(1853641, 1278987, 0, 0, 1, 1, 1, 1, 1, 1, 1, 1, 1, 1278987);
    lemma_byte(
        1853641, 1278987, 1, 0, 15, 1278987, 1075566, 1555025, 261510, 1102687, 1775672, 923145,
        202904, 83813,
    );
}

/// A power of its power modulo 1853641.
proof fn lemma_both_p21()
    ensures
        pow(92730, 271) % 1853641 == 1,
{
    reveal(bit_step);
    lemma_pow0(92730);
    lemma_byte(1853641, 92730, 0, 0, 1, 1, 1, 1, 1, 1, 1, 1, 1, 92730);
    lemma_byte(
        1853641, 92730, 1, 0, 15, 92730, 1665942, 613755, 129646, 1122369, 833398, 1237638,
        1589664, 1,
    );
}

/// 1853641 is prime.
proof fn lemma_prime_p21()
    ensures
        is_prime(1853641),
{
    lemma_prime_19();
    lemma_prime_271();
    lemma_first_p21();
    lemma_second_p21();
    lemma_both_p21();
    let w = TwoPrimes {
        b: 1278987,
        c: 92730,
        d: 83813,
        cu: 167795,
        cv: -8394,
        du: 260689,
        dv: -11787,
        s: -57,
        t: 4,
    };
    assert(19 * 271 == 5149);
    lemma_prime_by_two(1853641, 19, 271, 5149, w);
}

/// A power of an element modulo the large prime factor of `q - 1`.
proof fn lemma_first_p134()
    ensures
        pow(0x19d34312de40e408ad66a2685372549cebint, 0x8d057ad4a4eb7nat) % 0x2775dec4d2fd445d02a32aa0f59b66aa11int == 0xb21e4228076b8473b7c242ee3b10c70aaint,
{
    reveal(bit_step);
    lemma_pow0(0x19d34312de40e408ad66a2685372549cebint);
    lemma_byte(
        0x2775dec4d2fd445d02a32aa0f59b66aa11int, 0x19d34312de40e408ad66a2685372549cebint, 0, 0,
        8, 1, 1, 1, 1, 1, 0x19d34312de40e408ad66a2685372549cebint,
        0xed73ceac93d6840f6ff0c6b08a1bacf3eint, 0x1fdd6cfde002b6a46f5ee9f35206e27aa5int,
        0x1f84d73e9ada53ec233840a2a2e963ac74int,
    );
    lemma_byte(
        0x2775dec4d2fd445d02a32aa0f59b66aa11int, 0x19d34312de40e408ad66a2685372549cebint, 8, 13,
        0, 0x1f84d73e9ada53ec233840a2a2e963ac74int, 0x1cd5695a0e15a69a1de51c71deca62e2eeint,
        0x19da2a5b1715888cc6956bffc0c851146fint, 0x117d9cd3bf66b87ec5d6dffe8ff3db1318int,
        0x1a3a8b71551ab3edb566265775f9d826d6int, 0x26930ad447408c69c5f3e3efe8d3bb5da1int,
        0x73408b8aa7e2acd62aea9f9e58b916f40int, 0x13244edce928bce4109a34067f123b6166int,
        0x1a144e62d1fdaa82104b18363865987f9int,
    );
    lemma_byte(
        0x2775dec4d2fd445d02a32aa0f59b66aa11int, 0x19d34312de40e408ad66a2685372549cebint, 2256,
        5, 7, 0x1a144e62d1fdaa82104b18363865987f9int, 0x2289cd927ea06fba86063828e1f0fd179aint,
        0xbe458d45f48fdce7b66385a5372fa622fint, 0x15afc806a383df05fb4db2773de25ff6a0int,
        0x98f0bb4395a7f5d46f3e9bd8547e7f887int, 0x1c6d014d65cad473b1892d8ad451aa8288int,
        0x3b39f01b7fdecf194e62777025bc67bd3int, 0x23f310fe1c44fc9404507783ab84b928deint,
        0xbc576f01a80bb55ff77e3ee26ebb504cfint,
    );
    lemma_byte(
        0x2775dec4d2fd445d02a32aa0f59b66aa11int, 0x19d34312de40e408ad66a2685372549cebint, 577623,
        10, 13, 0xbc576f01a80bb55ff77e3ee26ebb504cfint, 0x186f4ce3d800650e747240533445d296dfint,
        0x1e324ca43ee8ea0e66f47816871e29b71cint, 0x2376b6d08b67073d59e7e10321ffe1c676int,
        0x2270ae3868185a1ae9baba4a0f69bf694aint, 0x10adb6d0c0965a5c27864aa892fe038b3int,
        0x1f4e2399f2ef8573f2bafb282497810ba5int, 0xa98264d1c849c932c5e0d42c782641c9aint,
        0x206ba285c972b01c5d8ba949360de1247aint,
    );
    lemma_byte(
        0x2775dec4d2fd445d02a32aa0f59b66aa11int, 0x19d34312de40e408ad66a2685372549cebint,
        147871661, 4, 10, 0x206ba285c972b01c5d8ba949360de1247aint,
        0xdb354d8bd57de2d23c0d0fb5d60953dc5int, 0x5d2a3950440cda06fbb337bf1a6da9d0eint,
        0x3eade8fd45a623132a0e18f12cfe1ada2int, 0x1a4f1ac84507bd93c80f32aacc67af7ed2int,
        0x8c74c7ae66bd1f8e1848c61b416976bf4int, 0x1b1cf225562cf839e8bac8de611eabc2d2int,
        0x201014d209e1e81be6b2e64ade7fe4cb9dint, 0x408987f7df4d36fa0c9a14e3f2458868eint,
    );
    lemma_byte(
        0x2775dec4d2fd445d02a32aa0f59b66aa11int, 0x19d34312de40e408ad66a2685372549cebint,
        0x8d057ad4anat, 4, 14, 0x408987f7df4d36fa0c9a14e3f2458868eint,
        0x93a06eb7fad308a3048569a502a1fa7b8int, 0x1a35b3ade20d22486001ab59171b0c1674int,
        0xbeffb83953a8e37be7e071f2b86fcd981int, 0x16e0dc87589b10dd4d64a668c7cc4fa6aint,
        0x134310f761d78947205f7c3db20d87d8d3int, 0x314f2216e699371bab1953e14ad4b7945int,
        0x213071f9d95270152d8299b6ec6a417be1int, 0x2218de123e27b6b03b8c158758c0676bcfint,
    );
    lemma_byte(
        0x2775dec4d2fd445d02a32aa0f59b66aa11int, 0x19d34312de40e408ad66a2685372549cebint,
        0x8d057ad4a4enat, 11, 7, 0x2218de123e27b6b03b8c158758c0676bcfint,
        0x14ee1dfd456c5176a3dc14c1ff99059154int, 0x1c25f6451f8f66793f8dd802e71badb15fint,
        0x272901437ae126d52fcd3e029739ba5513int, 0xad812333bf66cac82d3e0e21668a2ba81int,
        0x75c70849389a2bcb3900f5546e553f889int, 0xe2a8d59cc108d818253475b52e20a69fint,
        0x18145a3a1ae71383dd9ec05c1cb06e8a76int, 0xb21e4228076b8473b7c242ee3b10c70aaint,
    );
}

/// A power of that element modulo the large prime factor of `q - 1`.
proof fn lemma_second_p134()
    ensures
        pow(0x19d34312de40e408ad66a2685372549cebint, 1853641) % 0x2775dec4d2fd445d02a32aa0f59b66aa11int == 0x208f65b73ce0476d8918a6dce19b6579eaint,
{
    reveal(bit_step);
    lemma_pow0(0x19d34312de40e408ad66a2685372549cebint);
    lemma_byte(
        0x2775dec4d2fd445d02a32aa0f59b66aa11int, 0x19d34312de40e408ad66a2685372549cebint, 0, 1,
        12, 1, 1, 1, 1, 0x19d34312de40e408ad66a2685372549cebint,
        0x41f928f1de10a85ad7fd686ec249f8dcdint, 0x79c6d0a883d8fd66626e8924104ade152int,
        0xc24f1d815b5eb345ea4caa9a1723647dfint, 0x2284bd8fd5a257832bd4e0c3b3a287ff5eint,
    );
    lemma_byte(
        0x2775dec4d2fd445d02a32aa0f59b66aa11int, 0x19d34312de40e408ad66a2685372549cebint, 28, 4,
        8, 0x2284bd8fd5a257832bd4e0c3b3a287ff5eint, 0xc805d38c6a43fcea9c3cca26d46ab28dint,
        0x22b0b3503ed2f73904bd252ede05f77caeint, 0xfd392fcf8c575d40c6fc9c22fd5f49dbdint,
        0x4ec546c164c3419a8d6503f952c239f35int, 0x16fe2229727964f36f46adb46634a2afceint,
        0x14f9f80d486f70366cb23ceecab0fa8be5int, 0x1b3ce157621eaf774a2e5a7a5b90ed44dfint,
        0x14a90c41344d2bb2fec9444daa3a8655aaint,
    );
    lemma_byte(
        0x2775dec4d2fd445d02a32aa0f59b66aa11int, 0x19d34312de40e408ad66a2685372549cebint, 7240,
        12, 9, 0x14a90c41344d2bb2fec9444daa3a8655aaint, 0x10eef9a19e41a554b424f6dd1d23316433int,
        0xe15f87fbc18dc20da1f5700db2b467bfint, 0xdb69d6cbdf4f3c2fa7e0ee809d0e2a635int,
        0xd2a46a957a9c161415955175bd948f995int, 0x8f84f6b46de0d00c10a8dcb1f8eb8a2f6int,
        0x161f224df0007f64390b5ae9f2a707c7daint, 0x111ff579b3d3edf6ab59b9bdb53c236701int,
        0x208f65b73ce0476d8918a6dce19b6579eaint,
    );
}

/// A power of its power modulo the large prime factor of `q - 1`.
proof fn lemma_both_p134()
    ensures
        pow(0xb21e4228076b8473b7c242ee3b10c70aaint, 1853641) % 0x2775dec4d2fd445d02a32aa0f59b66aa11int == 1,
{
    reveal(bit_step);
    lemma_pow0(0xb21e4228076b8473b7c242ee3b10c70aaint);
    lemma_byte(
        0x2775dec4d2fd445d02a32aa0f59b66aa11int, 0xb21e4228076b8473b7c242ee3b10c70aaint, 0, 1,
        12, 1, 1, 1, 1, 0xb21e4228076b8473b7c242ee3b10c70aaint,
        0x525b4703daaddb7ea3e0130b028b16b47int, 0x75f60d9de1d8cd7cc804fac36a8e02009int,
        0xc3d1f92f13b0ef3a7227a7fcde9db8addint, 0x17f90321794db81be46dc5e7dbfdc0cbebint,
    );
    lemma_byte(
        0x2775dec4d2fd445d02a32aa0f59b66aa11int, 0xb21e4228076b8473b7c242ee3b10c70aaint, 28, 4,
        8, 0x17f90321794db81be46dc5e7dbfdc0cbebint, 0x7d13e17fe20198839fdebd6154857116cint,
        0x26fed176b461c9c5e76f5dbf0daa05e434int, 0x242082313d4842645945302901fc9a52e7int,
        0xd5f9a6cfce46b8f6a5ceaca88539c80ddint, 0x24b88ac2277a5b59a76ca895de1431345aint,
        0x15789816a4b7c545a42c57bb428638bf2aint, 0x21288772f8a3386f48e9edae2cb4c4bd28int,
        0x1fdcb8959eebd70600e6e1b0cb837d8863int,
    );
    lemma_byte(
        0x2775dec4d2fd445d02a32aa0f59b66aa11int, 0xb21e4228076b8473b7c242ee3b10c70aaint, 7240,
        12, 9, 0x1fdcb8959eebd70600e6e1b0cb837d8863int, 0x9bdd9dc8f38be6a44991517cea8ff7e0aint,
        0x447af87c84a67d8ee85c492b0df857f4eint, 0x1c6218e70b0b38e0887213122f38e633d9int,
        0x18f7660b8dcdaa181ae444a3f5f0a0bbcdint, 0x93397410ce5c0be2bf3aa5280dcff6509int,
        0x1f4707166a646bfc2b1bc9ef5de1b9de9int, 0x1f28ccac7c58b1ce699976676177cfc5e0int, 1,
    );
}

/// The large prime factor of `q - 1` is prime.
proof fn lemma_prime_p134()
    ensures
        is_prime(0x2775dec4d2fd445d02a32aa0f59b66aa11int),
{
    lemma_prime_p52();
    lemma_prime_p21();
    lemma_first_p134();
    lemma_second_p134();
    lemma_both_p134();
    let w = TwoPrimes {
        b: 0x19d34312de40e408ad66a2685372549cebint,
        c: 0xb21e4228076b8473b7c242ee3b10c70aaint,
        d: 0x208f65b73ce0476d8918a6dce19b6579eaint,
        cu: -0x38e0716c5ceaede564d0079648cd79316int,
        cv: 0x100bb8eb22d45b58fc1ff8f63360f5217int,
        du: -0x1384b4cbd9fee59eaf1e1d36659b1cef8aint,
        dv: 0x101af3dc81ed4d9704638089e21b0711ebint,
        s: 148626,
        t: -0xb4ea32bb18f5int,
    };
    assert(0x8d057ad4a4eb7nat * 1853641 == 0xf94b1b31b4917f45afnat);
    lemma_prime_by_two(0x2775dec4d2fd445d02a32aa0f59b66aa11int, 0x8d057ad4a4eb7nat, 1853641, 0xf94b1b31b4917f45afnat, w);
}

proof fn lemma_order_q_0()
    requires
        pow(0x2d5e256c06a868c6e4890a6dab5d8e3a2707ff7ff0369c37a2c8faca0399d771int, 0) % 0x30644e72e131a029b85045b68181585d97816a916871ca8d3c208c16d87cfd47int == 1,
    ensures
        pow(0x2d5e256c06a868c6e4890a6dab5d8e3a2707ff7ff0369c37a2c8faca0399d771int, 0x2775dec4d2fd445dnat) % 0x30644e72e131a029b85045b68181585d97816a916871ca8d3c208c16d87cfd47int == 0x1d377961b2da7bffb790e648575b7ffacd495e0c3255dc479d3fb72c5933448bint,
{
    reveal(bit_step);
    lemma_byte(
        0x30644e72e131a029b85045b68181585d97816a916871ca8d3c208c16d87cfd47int,
        0x2d5e256c06a868c6e4890a6dab5d8e3a2707ff7ff0369c37a2c8faca0399d771int, 0, 2, 7, 1, 1, 1,
        0x2d5e256c06a868c6e4890a6dab5d8e3a2707ff7ff0369c37a2c8faca0399d771int,
        0x295435e7bc3ed85535fc86281580fd1f242ecc7f6144a3bf64fcc809333a1e5int,
        0x1ab7c87ffbed6b9cc280c5663d80ac4ec6523c065ce9a2f90a1e46a62e850995int,
        0x44c524b180770b01809ec70197894bb4664899f48cd7a2cff84362571e4883bint,
        0x61e654b40009645227da89eb3011cd163fbfbefee7778b5b4b5e69cc85771f7int,
        0x2e16d3ef57bd0cf0a8221d39cb30b3668016d59b767e476f45c5dadc454a3e73int,
    );
    lemma_byte(
        0x30644e72e131a029b85045b68181585d97816a916871ca8d3c208c16d87cfd47int,
        0x2d5e256c06a868c6e4890a6dab5d8e3a2707ff7ff0369c37a2c8faca0399d771int, 39, 7, 5,
        0x2e16d3ef57bd0cf0a8221d39cb30b3668016d59b767e476f45c5dadc454a3e73int,
        0xc747b5ad5455161f81ffeb268bbfb728c28cf36bd5feed11c134e2b8c73653int,
        0x578befc9fb58d94ea71e35be2f6913c3b37c6b4a94ed9b85b80a3915b76555fint,
        0x893b865883a0cd1fdf3a2170a6388c0d87d856eb2234bc909bcc10f1a9a5168int,
        0x191eb0fa3701ef3bb18b6c27e7ff4878b7615dda126276c15f7b5766b4baf9caint,
        0x1990b4ab6165e2553c73e1cf32bccf14a5eb78306b42dfbcf5ad668e27051a78int,
        0x19d63aa5d3293caa315dbcf548d07c2948ef62b692c6643b45750484b83bc8f1int,
        0x20a5cc422741f9016255baa11aa1f48d3c627c3f882e668dd2362da48cb32ee6int,
        0x133c2c1aeae8f4e3afd1fb18809b85b53fb49e56b5892c143a3d45d766e97b1fint,
    );
    lemma_byte(
        0x30644e72e131a029b85045b68181585d97816a916871ca8d3c208c16d87cfd47int,
        0x2d5e256c06a868c6e4890a6dab5d8e3a2707ff7ff0369c37a2c8faca0399d771int, 10101, 13, 14,
        0x133c2c1aeae8f4e3afd1fb18809b85b53fb49e56b5892c143a3d45d766e97b1fint,
        0x2d7560dc23432c3d0f48a6352a304f96bc8bbb1a82595affb17e0a7209f882e7int,
        0x2f9e42de16529391d19d2f2dbf2f0583afcb1b6d338d8bacd251b552489ae3a5int,
        0x1f474f49000685b1743ab6d6b7331cbbf6497b37d380a7bd81b87440757b7062int,
        0x16fcb13c837f51a4ff9a660212592c5970254f82d1f1bb7ca9d9628c8cc35e0aint,
        0x1c6ee8eaf58f8a4be0d058b62bf3cf2fe51cf73aea37f60276abede5d8decc4dint,
        0x16f508fdf04b93c4487ab846b16eaa6cc9e171c944d765ab5a1aa63f2213970bint,
        0x1ffeb267faee275bbff119608ef8659f90dd94a38a920ec478d96f3dafb1e300int,
        0x2f508c727dc8fd2781f6d0075e32fca14acfc69c9e6c5281a24290a23662c64cint,
    );
    lemma_byte(
        0x30644e72e131a029b85045b68181585d97816a916871ca8d3c208c16d87cfd47int,
        0x2d5e256c06a868c6e4890a6dab5d8e3a2707ff7ff0369c37a2c8faca0399d771int, 2586078, 12, 4,
        0x2f508c727dc8fd2781f6d0075e32fca14acfc69c9e6c5281a24290a23662c64cint,
        0x1708484238e1681cc47be8ca82654f04ee7eaf8e4b0dd49d919d522981ab3e1dint,
        0x6f06a6caac839b60df119d362b4f64bd0074513508ff722b2fa6872d42b3138int,
        0xa270a34099e607f76b1d4293375caaa5ead379caa24c1ce507f574fecc6b18bint,
        0x16e126cb8589313d5bd47bdc170bfb4bfd4f7b20a698b26d141a435810ee2fa8int,
        0x2dacb937b8bd43af526f0760ac399ef00e3fecec2a9abaabcd0def99e9782944int,
        0x296a970baabfea5f149c0057b343945e5e19d4fcf85c47b523ce1012a3280bc3int,
        0x9dafe4f65b6eb677469439a4d541dce37d00623d3d2c13a44f566cf60734134int,
        0x1ad23216bd7887c40a3655b69a6bcc00b522f05af9ec44aa6c8eff9cc0b67756int,
    );
    lemma_byte(
        0x30644e72e131a029b85045b68181585d97816a916871ca8d3c208c16d87cfd47int,
        0x2d5e256c06a868c6e4890a6dab5d8e3a2707ff7ff0369c37a2c8faca0399d771int, 662036164, 13, 2,
        0x1ad23216bd7887c40a3655b69a6bcc00b522f05af9ec44aa6c8eff9cc0b67756int,
        0x1f441ae7eabbc3f55f8ba776efa917a41126552eed845a6cce718b31bd0c9a47int,
        0xfc22363657b67ddb1eb11640e0240f29d3d4c1fc6f74d6486f1551449d07757int,
        0x24ce8e129bdc1d8e30f6e744c23db2afab397f0b1b3bcfecf7e9e237616874b4int,
        0xdfd6e96545390a5459aba17cd48e33b9385739675b76b4bd1fc6391b04fdff7int,
        0x245b0eccaadd4dc115422dd6a17258848e30d6701d25ecfd18acb4cfdd49443fint,
        0x2053c8d26b6c6b51421d3c4b9170e36e0ecfe94a2e55970f08dcb4f2715bf615int,
        0x15bc44fc8c9203002774b12536ac4322d0c6b15ef36434b97ba35bce2f193f85int,
        0x98bb67afdb220e450e0dd7afc27ed5cec95b5a43e0079f95efdf66c0f26c4a1int,
    );
    lemma_byte(
        0x30644e72e131a029b85045b68181585d97816a916871ca8d3c208c16d87cfd47int,
        0x2d5e256c06a868c6e4890a6dab5d8e3a2707ff7ff0369c37a2c8faca0399d771int, 0x2775dec4d2nat,
        15, 13, 0x98bb67afdb220e450e0dd7afc27ed5cec95b5a43e0079f95efdf66c0f26c4a1int,
        0x2c935a990e2d96d29726ce5d978f3ec68502658d8d979b371e12b3bb229e6fa2int,
        0x2b2a4cdf959250cdf4c459a24aff6bccecb04c72d7b865429ba054314d189971int,
        0x1bf301a84ce296ccb9695ab2327bb004070e661f6832119e9c0e436a3ae1fa73int,
        0x214f27e41cb8e651afb0d679767a61ddabafcbad5b6f31342e7e476a6d81182int,
        0xa1be5ec0b5fdf7c46177903eb4b2ae9a9f9a723b69753e5864a175a479f2068int,
        0x1cdd9be1f72ab4b79d856fc2944267db59279de1959b6ecf381efcf8c259fd80int,
        0x3007753056ea78753e1a1346e398abe17cb131e6d514433e074b1cfe38cae463int,
        0x19ed8a032139f6ad7d6f8a689f7857583963aba8c9abe6f67ae7427fc872b2e8int,
    );
    lemma_byte(
        0x30644e72e131a029b85045b68181585d97816a916871ca8d3c208c16d87cfd47int,
        0x2d5e256c06a868c6e4890a6dab5d8e3a2707ff7ff0369c37a2c8faca0399d771int, 0x2775dec4d2fdnat,
        4, 4, 0x19ed8a032139f6ad7d6f8a689f7857583963aba8c9abe6f67ae7427fc872b2e8int,
        0x2895d8a5299d31fdf7bc664f9bc19612ffad534f39551b3cda54104e1bd5b58eint,
        0x2328ef14819a4473fb414d6c516b77495a27e8382125336821294b6843596c83int,
        0x8832f0448bc34ceb0e6f4fba8cdfa78f62c7ee5703dd0393b94a52c4877c28eint,
        0x24fb3ae4717a528cbdb398d24a35e0ee27c82f3f9373280abd2cc5be0bab6ffdint,
        0x2dacf32e9ccb4604556bae2971dd832506f284f93565cbf6269bad2bc4d9755int,
        0x1e0e715895765fd5b365b61dd7e8b05660820153c507742774271cf039afea8int,
        0x1273da01ecdc1dd96587ec9c039f45b8285e2321b8935e8b5bf08d4803c09378int,
        0x1022fe319eb8728bb23944076e7951601e11f9be6d38d49e9a2e03a4f415f5e9int,
    );
    lemma_byte(
        0x30644e72e131a029b85045b68181585d97816a916871ca8d3c208c16d87cfd47int,
        0x2d5e256c06a868c6e4890a6dab5d8e3a2707ff7ff0369c37a2c8faca0399d771int,
        0x2775dec4d2fd44nat, 5, 13,
        0x1022fe319eb8728bb23944076e7951601e11f9be6d38d49e9a2e03a4f415f5e9int,
        0xd0db914636347d6280d0b3feaca28be8938050cefde7770c6db45fa282aa856int,
        0x15a880be001aa2988fddf76bcbbb137c7f9c9cfdd5886439e7b10cdca94cae89int,
        0x2ff7a7d39f7d35bccc01626ee9d429687dc896175bc810d725ee1f7765e1a875int,
        0x21ce90fdb33a8b7bda582ba52f657b0b430285937357da07478c43baba3c0a82int,
        0x2c7bb05ae8427c527239d8aca31a0c5d7d0c6bef97d37fd7728ea0155d1e77a3int,
        0x8ed92393ec94907dfb7023d06f1fac3daac5ffa6ea3c733e741255d9db5e083int,
        0x24301a549dec8fc552850f8752257fe604098aab4da3ecbcb31681515659caceint,
        0x1d377961b2da7bffb790e648575b7ffacd495e0c3255dc479d3fb72c5933448bint,
    );
}

proof fn lemma_order_q_1()
    requires
        pow(0x2d5e256c06a868c6e4890a6dab5d8e3a2707ff7ff0369c37a2c8faca0399d771int, 0x2775dec4d2fd445dnat) % 0x30644e72e131a029b85045b68181585d97816a916871ca8d3c208c16d87cfd47int == 0x1d377961b2da7bffb790e648575b7ffacd495e0c3255dc479d3fb72c5933448bint,
    ensures
        pow(0x2d5e256c06a868c6e4890a6dab5d8e3a2707ff7ff0369c37a2c8faca0399d771int, 0x2775dec4d2fd445d02a32aa0f59b66aanat) % 0x30644e72e131a029b85045b68181585d97816a916871ca8d3c208c16d87cfd47int == 0x7d192e2162ac6b1e62c9fbda9fa4a4acec091be6ce27b76d8ce47a0080c24ceint,
{
    reveal(bit_step);
    lemma_byte(
        0x30644e72e131a029b85045b68181585d97816a916871ca8d3c208c16d87cfd47int,
        0x2d5e256c06a868c6e4890a6dab5d8e3a2707ff7ff0369c37a2c8faca0399d771int,
        0x2775dec4d2fd445dnat, 0, 2,
        0x1d377961b2da7bffb790e648575b7ffacd495e0c3255dc479d3fb72c5933448bint,
        0xf41306cd954606535f9d6c580f0fb8ae0cf55cdd8a5b150f48f554410c7530cint,
        0x1ff0a1836044a167b17f0877baeedc48cd50008bc609bbc14ec1cdebe58341d7int,
        0x13c94c6983e4f6517e8455633ed8328903b42f3bf3434438bd400b192dc6a842int,
        0x9639379ba9eb61a09ec6de04b9bc10e25e50d010938d5c355ac3ac97dcd39a9int,
        0xa27ab2d87d78a0807be7a80ed6036fa60112128f86f49b3fe9f0161f7b158a0int,
        0xb6ab0ed2f07b6fe2c55a6a4961a5c12d2870a95c84798ad9f8561c169eee88dint,
        0x147398152157ec08e37e8f834e3e6d0a8cb3a4c90051ad5b1a04930dedd9092fint,
        0x18262e81a32ce83cc65c002f4e4547e3b6a2cfa16a4d05c83507fd4982d2b4b4int,
    );
    lemma_byte(
        0x30644e72e131a029b85045b68181585d97816a916871ca8d3c208c16d87cfd47int,
        0x2d5e256c06a868c6e4890a6dab5d8e3a2707ff7ff0369c37a2c8faca0399d771int,
        0x2775dec4d2fd445d02nat, 10, 3,
        0x18262e81a32ce83cc65c002f4e4547e3b6a2cfa16a4d05c83507fd4982d2b4b4int,
        0x1b99e9e069b82fc706f4c9c5e933109aa07a3825bfb7c66473a2749b405569afint,
        0x2c8b860f6beeb911d6e115f939885974805ffbb7603cad9fc2849d8f0729c4b6int,
        0x2a49f546ed90b33f59ccd8c93db333804907ae56d8ab7f33161face97419afb7int,
        0x1e40879047e2421183c183eb35b103d83074a92b9677e728beac76a70c7edd05int,
        0x474d3bb2e5f1496f904c5e83a1e2b238d48229533ed64c5b4a266e22dc70e22int,
        0x3cbfb98f4598dd6aa9affb57cfee465a208255ba3efda68894f1bec2a39e9cint,
        0x192211fe10f0dc1ee2f9a1ba52da68b609336b2c07376ae2478878bc78c5d036int,
        0x29cd6c014671c247764da3dd1e5b752b0cdea6aae7cde0f2fff12f47b7ac19ffint,
    );
    lemma_byte(
        0x30644e72e131a029b85045b68181585d97816a916871ca8d3c208c16d87cfd47int,
        0x2d5e256c06a868c6e4890a6dab5d8e3a2707ff7ff0369c37a2c8faca0399d771int,
        0x2775dec4d2fd445d02a3nat, 2, 10,
        0x29cd6c014671c247764da3dd1e5b752b0cdea6aae7cde0f2fff12f47b7ac19ffint,
        0x2d20502e3be6eac7236e7f46b9c8272f76e02495e6ee733c1fad2cc6a665b517int,
        0x1a6af7fe33ba93c4f445faa3cc056555b50962676c9dd338267f2d0bc7517448int,
        0x131e2d719f86332178a9a7342124e97f612af9090f2562233a7aa1525018c4b9int,
        0x2354f0bf321e4115b9539139e6f1e2d6c087862a6d14cccf4345e3f1a829f326int,
        0x172c82736d0b9e43a33f84d5b9419a53522d7ada4c48ed65d89e078d1fce5726int,
        0x11959dd106ddf004ae516be9dac56fb165d481accad33041a8e43daaf5bbb566int,
        0x100d071119d46758e84651a88054b7c5fbb8db56ae71229f7b1fc225630e8d57int,
        0xd8f7892117685dc5de441cf2b0e53d96921a2c3298a6dc69e57322be6bca488int,
    );
    lemma_byte(
        0x30644e72e131a029b85045b68181585d97816a916871ca8d3c208c16d87cfd47int,
        0x2d5e256c06a868c6e4890a6dab5d8e3a2707ff7ff0369c37a2c8faca0399d771int,
        0x2775dec4d2fd445d02a32anat, 10, 0,
        0xd8f7892117685dc5de441cf2b0e53d96921a2c3298a6dc69e57322be6bca488int,
        0x21b589c73f457afc094ac3c58b961a293cf1b86a60d0875842ee8154c06e2ca6int,
        0x26390d09f511201e92e95478a651b122de634a5d9a0553aaf41ff6d467b3d98dint,
        0x1339bb2499fd19e9a974c54e0341f5fb9a623b2ba2b08b6719aa9bddf94326c2int,
        0x2b41b0cc692fa09914e4f593b3859897c72b60e5223b597ed1631e6659d20404int,
        0x10bc69b89666dbaaee9ccf4944aa0a52ab450f3e7a1131378071a46582eadf87int,
        0x3026d69922c0f06b7bab4af71dc0411680796ad10f46c8cf87bc7b415085fa99int,
        0x8959301bcddf5b63def08d1e914061b3f8617cefe5b9e9a388f4bbd0006a64dint,
        0x5c706095f21f3095bd52359e0a3695e364b41b335647be6bd2a916b4d31915dint,
    );
    lemma_byte(
        0x30644e72e131a029b85045b68181585d97816a916871ca8d3c208c16d87cfd47int,
        0x2d5e256c06a868c6e4890a6dab5d8e3a2707ff7ff0369c37a2c8faca0399d771int,
        0x2775dec4d2fd445d02a32aa0nat, 15, 5,
        0x5c706095f21f3095bd52359e0a3695e364b41b335647be6bd2a916b4d31915dint,
        0x25b638529b7c5f057d3e14a300d885e7e2354d1d897ccc7a85da1910010f208cint,
        0x1e98c4f292e69a290c127a73bd92c2f1485db15ae111446adebb1316a65d13int,
        0x43dd01ffe873881ef2cd60b1601d9e99f29bd7af3de23addd4add807a8599deint,
        0x14f26b0b83783cee546bbfe24f16e14cda61171997b597d272b23e9234e43304int,
        0x1e3a7fe59efca861a08dabac47db7d13bc683e2415d54427fa1c6a2d02ba8a68int,
        0xd6d713f5b6462d6c8c17478706306e19fe8a9c4aef8beb3e6600cd2a72ef85bint,
        0x328999a3745b2612f7dad8fa3e292c0378467ddcfbdbc07e182046a6b3eead6int,
        0x11e6691f495fcf548ba601346c9c60a11d202edd78436d6cdbd3dc959469a9e1int,
    );
    lemma_byte(
        0x30644e72e131a029b85045b68181585d97816a916871ca8d3c208c16d87cfd47int,
        0x2d5e256c06a868c6e4890a6dab5d8e3a2707ff7ff0369c37a2c8faca0399d771int,
        0x2775dec4d2fd445d02a32aa0f5nat, 9, 11,
        0x11e6691f495fcf548ba601346c9c60a11d202edd78436d6cdbd3dc959469a9e1int,
        0x1e56cba97ce1f0458b2d73ee811b0eb93ed03629c4d969cbcfc9d8f44b52f6efint,
        0x2c7d2d7ddaccf626fae81ec9a913285b4bb5f5bded569d3a6f6527590e7b3742int,
        0x1e7552b87f3f7c71238892d053d5264f7c70e3903263f1a56a373390d3d97c62int,
        0x262d6170185f977b1aeb8e14554ea8a452aa8e844c5bc9abd3b780488d77bb6int,
        0x2868ca70e801c6071f136b6a99127baca4a7c12a68a69727d4f8226810d04f40int,
        0x131e77c54371a4c7c11f6adb1c5f43bc38cf1a01f6bf0a73ed9b38acc806278eint,
        0x8fdce4280602f00d412cc2b1d146dbfd596d7c0271224a99bd8265fbc33891cint,
        0x1b6be5860ed5d328fd908c0d349b8eab51b2ec77a904673fd6e589290ee85216int,
    );
    lemma_byte(
        0x30644e72e131a029b85045b68181585d97816a916871ca8d3c208c16d87cfd47int,
        0x2d5e256c06a868c6e4890a6dab5d8e3a2707ff7ff0369c37a2c8faca0399d771int,
        0x2775dec4d2fd445d02a32aa0f59bnat, 6, 6,
        0x1b6be5860ed5d328fd908c0d349b8eab51b2ec77a904673fd6e589290ee85216int,
        0x2074b7e7780a121d32a4ac15b54b90c323464a3dffb828c16547c12c50883f0dint,
        0x278964d0939c30277722002643f36f64ef1037bbf8fbe1880215e0a2e4e905bint,
        0x6b36ad0e29d1d42b2ce78148a0a0e7da4c17757a88cd049807f5d5a32f86218int,
        0x416bc86ff613f7e1e5a36f559777bde3268169fdd93730de50728317e160c83int,
        0x5f4c63a0ed0160cfb1b5faf9a5275b5fbe04b741760f1f094d1b193d0ed693eint,
        0x24685a5fa16ff9f5128eb604c4fbced8aed674cd12a5a772651b008fbd8feb09int,
        0x288b115bcc4ae63fc2f3a56074a230a8c9e98b0bd92d08e1b0cae24599d129deint,
        0x2a94c2dfb7da97e21a6677cf68c28604e40b7e0dee449a3ae6ad448e25ce7e99int,
    );
    lemma_byte(
        0x30644e72e131a029b85045b68181585d97816a916871ca8d3c208c16d87cfd47int,
        0x2d5e256c06a868c6e4890a6dab5d8e3a2707ff7ff0369c37a2c8faca0399d771int,
        0x2775dec4d2fd445d02a32aa0f59b66nat, 10, 10,
        0x2a94c2dfb7da97e21a6677cf68c28604e40b7e0dee449a3ae6ad448e25ce7e99int,
        0x230853cdeb942c1530ffe5295bd1be4d2db9b1065362086c7ffe300f28b12273int,
        0x161b90fc3ee9763fb76aef92b9856ccbbec5ed98237c20db7a224836b427e778int,
        0x296208ba66ba3efcb6614c123350221925f66e8c689621f21aa3d134f2fca01cint,
        0x23a836009cf77b6e9c7023c07f0d0821ea89bcb2e7b418c0b6ae6607b88b8d2eint,
        0x7020a5c811349af632b1849fb8a4d35b28165440c5df391d521ac6da6af262dint,
        0x1835ef5232e2eedba84f6b30a68795214540b9ac4d2224deb2c27b94bde1c6dbint,
        0x13e2cdf294a21a55951c00235d513cfda07fd3b9c5d845e76b3ff402e5815450int,
        0x7d192e2162ac6b1e62c9fbda9fa4a4acec091be6ce27b76d8ce47a0080c24ceint,
    );
}

proof fn lemma_order_q_2()
    requires
        pow(0x2d5e256c06a868c6e4890a6dab5d8e3a2707ff7ff0369c37a2c8faca0399d771int, 0x2775dec4d2fd445d02a32aa0f59b66aanat) % 0x30644e72e131a029b85045b68181585d97816a916871ca8d3c208c16d87cfd47int == 0x7d192e2162ac6b1e62c9fbda9fa4a4acec091be6ce27b76d8ce47a0080c24ceint,
    ensures
        pow(0x2d5e256c06a868c6e4890a6dab5d8e3a2707ff7ff0369c37a2c8faca0399d771int, 0x2775dec4d2fd445d02a32aa0f59b66aa11nat) % 0x30644e72e131a029b85045b68181585d97816a916871ca8d3c208c16d87cfd47int == 1,
{
    reveal(bit_step);
    lemma_byte(
        0x30644e72e131a029b85045b68181585d97816a916871ca8d3c208c16d87cfd47int,
        0x2d5e256c06a868c6e4890a6dab5d8e3a2707ff7ff0369c37a2c8faca0399d771int,
        0x2775dec4d2fd445d02a32aa0f59b66aanat, 1, 1,
        0x7d192e2162ac6b1e62c9fbda9fa4a4acec091be6ce27b76d8ce47a0080c24ceint,
        0x1d360f55a5f6db58ce9ce1f0c459b1fa51a4b28865930bebdd0f560269be2a31int,
        0xba5dc5ed387fa57c5407c0a85b449337fda0493c444624d9903e1ab3092484fint,
        0x2efdeb4b55901adcf4116bb7a9dccf51ae6343036c69bc431d1c6ea13ea3ab75int,
        0x94bc2d5108d6090b8eee4dbc25d83ffce4dcf82c9f73aed7bdee0b4e94813bdint,
        0x1cd39cc16a0dbd63b15ff22064ad51f4e0e6a1455d1671afb1f823ea5f14ed45int,
        0x13bc9174e9379c4dda44ec3c66f60eef8fe981d92087c5866a15efde87493c69int,
        0x14df4016af6104657e5510dbc6977fe682bcd43693d2b1025613e689cb644884int, 1,
    );
}

/// A power of an element of prime order modulo the base field modulus.
proof fn lemma_order_q()
    ensures
        pow(0x2d5e256c06a868c6e4890a6dab5d8e3a2707ff7ff0369c37a2c8faca0399d771int, 0x2775dec4d2fd445d02a32aa0f59b66aa11nat) % 0x30644e72e131a029b85045b68181585d97816a916871ca8d3c208c16d87cfd47int == 1,
{
    lemma_pow0(0x2d5e256c06a868c6e4890a6dab5d8e3a2707ff7ff0369c37a2c8faca0399d771int);
    lemma_order_q_0();
    lemma_order_q_1();
    lemma_order_q_2();
}

/// The base field modulus is prime.
pub proof fn lemma_prime_q()
    ensures
        is_prime(q() as int),
{
    lemma_prime_p134();
    lemma_order_q();
    lemma_prime_by_order(
        0x30644e72e131a029b85045b68181585d97816a916871ca8d3c208c16d87cfd47int,
        0x2775dec4d2fd445d02a32aa0f59b66aa11nat,
        0x2d5e256c06a868c6e4890a6dab5d8e3a2707ff7ff0369c37a2c8faca0399d771int,
        0x11280702cece1e1134e5fe9ec88ce193dfcc50edfa655be2c8acda3cb27035f7int,
        -0x10159074acbc70c8e803477f05f5f765e8d140866780e84bf024d7d4354135f9int,
    );
}

proof fn lemma_cube_g1_0()
    requires
        pow(3, 0) % 0x30644e72e131a029b85045b68181585d97816a916871ca8d3c208c16d87cfd47int == 1,
    ensures
        pow(3, 0x10216f7ba065e00dnat) % 0x30644e72e131a029b85045b68181585d97816a916871ca8d3c208c16d87cfd47int == 0x258113f6f5c915f918ec2c661c2accc6fe7273c819c9cd60b31e0ae727b8d143int,
{
    reveal(bit_step);
    lemma_byte(
        0x30644e72e131a029b85045b68181585d97816a916871ca8d3c208c16d87cfd47int, 3, 0, 1, 0, 1, 1,
        1, 1, 3, 9, 81, 6561, 43046721,
    );
    lemma_byte(
        0x30644e72e131a029b85045b68181585d97816a916871ca8d3c208c16d87cfd47int, 3, 16, 2, 1,
        43046721, 0x6954fe21e3e81int, 0x2b56d4af8f7932278c797ebd01int,
        0x1602dab3b28f0ee78ccfad09ae76f273aa2d80c63d849f936e03int,
        0x6019da0e9693bced61597ff3cc737da765c0ec575c0db73a804169dde02ee17int,
        0x1593530805d090f35a73429aa8f0a17b65ad17c7d56562cbd7619a6aeb2909d0int,
        0x1c0713adb943a93e9a2bbf48e5950f01ccb17efec7abadf24fa9558de6747f04int,
        0x27af991feb8ee4ad333e17492b7fe3145dd91d7f7d15308725fd83dfd8f26e03int,
        0x12d38782996a1a28d7eb0ed6cad6b9d5dad5e554c6470239776b331f4790c83eint,
    );
    lemma_byte(
        0x30644e72e131a029b85045b68181585d97816a916871ca8d3c208c16d87cfd47int, 3, 4129, 6, 15,
        0x12d38782996a1a28d7eb0ed6cad6b9d5dad5e554c6470239776b331f4790c83eint,
        0x242db3a309b98bc56343ea5ede6f5cd3971a37ec3746d79764c7429bea7442b3int,
        0x15104654d6b653eb6f90d3fbddf44fe90624a51e7de0663ecf197024b0ce9985int,
        0x2d5a9ea6e425ac143063a3b4f8929df9ce344e4ef0d7234a250ec5aef1ff43fdint,
        0x2a4c122842706f4d9391950be0ef44b04b5be8f453a20fa593f98d15902897eaint,
        0x2ea424de80e2b23e6bdcad430af410a954887fc850664ed88b10d4f03ecbae0bint,
        0x1b59681e6e94f79eca33e932eb508adc0cb2668c6124e2ad905632482e62c4e8int,
        0x1a0560f2cd1e51cc42216828344cf838e8f661a5aaf9c74a741f829dffdcc482int,
        0x2f60038967a2ead44372377b83830e281e475c7d36c179d121507f66af8a50fbint,
    );
    lemma_byte(
        0x30644e72e131a029b85045b68181585d97816a916871ca8d3c208c16d87cfd47int, 3, 1057135, 7, 11,
        0x2f60038967a2ead44372377b83830e281e475c7d36c179d121507f66af8a50fbint,
        0x109545374b2d805397e8758be9f6858d308ac3d30f6d788981d0eb5308b161d0int,
        0x1127c2d597819bcb07da58806a2488e3d72f4bb7413615f747635f64f4cc1dd1int,
        0x236b6188c2c144c2eab61d17c302f54edeb803e924217ccb58dc8da8520357cbint,
        0x20282c49eb7852ba8e1a72101de0839d8f9a51f012534ff48f75606da1a88c42int,
        0x22dbfe7028082d48db34d3054ee26cd23b166e06e9652c077a2012321be6dcceint,
        0xfe92f7f3567a87857e09f4c49032d1926abfd00ac4995d345e1fa9235315543int,
        0x2b7bfe925123355062bbb85f25876dca6ceea9aa2c600bef77aab746af51f9a9int,
        0x2ed21e58e07b559e519f35cf8e88e371b30cbb6eaa6156e95f85ebba48be78d4int,
    );
    lemma_byte(
        0x30644e72e131a029b85045b68181585d97816a916871ca8d3c208c16d87cfd47int, 3, 270626683, 10,
        0, 0x2ed21e58e07b559e519f35cf8e88e371b30cbb6eaa6156e95f85ebba48be78d4int,
        0x1e24abd60dd48b17566490968c2b90723b1464a988992b672c632ed65a750f22int,
        0x1925559dc93119d3b65c13c79ea5fd920671bb234beb9f246b27248de7613b47int,
        0x2ca5e9e4e6cfbf839ea9b5f74850d41e8f5285a962606887cc53fa06d7eaff0dint,
        0x1c263ace0bf95830105f2808cd534c242aa4c77c97ba8844a3bfe84465b03e19int,
        0x1e7afb3a50628e3f3b6f7561ecf06274a4bba0a9de506b0ffe4e7f07eeeaf9bcint,
        0x9b0441f929cfab0e0a3282832e3f38c16a749ef08d230a35ebc43f8ca9d574eint,
        0x23d07dcd617e92df2ae09565e5d0bddf1a4850afde56eb5f76238258c8f87860int,
        0x17851286495d993749daa0313622d8ee58d03178f05c03d11bf4d26be73f557int,
    );
    lemma_byte(
        0x30644e72e131a029b85045b68181585d97816a916871ca8d3c208c16d87cfd47int, 3,
        0x10216f7ba0nat, 6, 5,
        0x17851286495d993749daa0313622d8ee58d03178f05c03d11bf4d26be73f557int,
        0x1b217fc6aa0e9fad72b88f33e2818a493aafcaba067ae05e1bb28781aeb7277dint,
        0xcd6fc24b12f83cb81775f093c1abe649584cf5dde48cc50ff78a42be01ce770int,
        0x1fdc75d901e71f68645b6a03dc329e3cde5bb699fd26d5cd3bda695e10e5ff90int,
        0x621032e27fd21faed696ccbcab5422b9038f93fa76673f3f38173a309c76deaint,
        0x279ccf67bbadd37858161a1042aa8425e6219f93091e352f2c64e4febae76e47int,
        0x21b804a03ff259a92b31737194b9b98a6adabf733b15bf640ff3da5e88fd7734int,
        0x250af51def118284dc798c4e6f6e2dbbc779d65645be445bd7ffe9debe44ccf0int,
        0x1b35f6629a95b61b45a9b4ec9241dff628bc5b129f9f5ea1f407f62facf74bb0int,
    );
    lemma_byte(
        0x30644e72e131a029b85045b68181585d97816a916871ca8d3c208c16d87cfd47int, 3,
        0x10216f7ba065nat, 14, 0,
        0x1b35f6629a95b61b45a9b4ec9241dff628bc5b129f9f5ea1f407f62facf74bb0int,
        0x2c8504c4f97dca9f60b14ea3227839eb3cacd7359f2ac03091fcdf4b52345fb3int,
        0x2c592fb5ea35ed7b751ba68eaa557b1a2a8369c06a2e118a1d22f1fdf11f95a3int,
        0x1a974f5666492ed354c64d12be1b5015eac8762a71ccee3207230c1bba6d26baint,
        0xd4fcddb3e741bbed6d642b091d92e2ddef64f5f23adfcec92cc0489ba69883bint,
        0xaff99101b66629ea7559aaa76e295ee69da1c0aeda6f7aff0844a23a86c15b3int,
        0x21beb68dc0fc49290c7ddee183bb1b49e07b9907098f0e56fd0d5db6dceb26aeint,
        0x2e06ac10f0498fea187d1ad4924f5441ecc84fe8ec38197c9f972a9db9c9fcbint,
        0x16bc3af0be4e91dd8c64b4ced51284d3b496cb2d0938233bd17cf07ac52d1be5int,
    );
    lemma_byte(
        0x30644e72e131a029b85045b68181585d97816a916871ca8d3c208c16d87cfd47int, 3,
        0x10216f7ba065e0nat, 0, 13,
        0x16bc3af0be4e91dd8c64b4ced51284d3b496cb2d0938233bd17cf07ac52d1be5int,
        0x21d142c44e7b37823c18f0448722a420d30c8918d001e89c0811b445c77906c4int,
        0x2937fed31fd55f105644147c71a9270f8382de60d5c531ef57d5be0ee1409d4eint,
        0x9aa30d254cf0039518675b2333359a383a0ff28fda4a11733c4f06cb437eb57int,
        0x21d81c00337f379068668ca0c34ee2baff2f1ab26b67babe99c418d8f1c1923dint,
        0x156175919e87249213936d689c33ec4e41e1fc82dd9d2d3c2bd32b80957989d3int,
        0x4e8d9eb36b5c38b68fc3babb08a81921fd5d1facc09e965b99d606df038c1beint,
        0xf7fd258e8c4f9e181825d42d4521a70195d04b228cff1a6c0d2c67fafd8ad65int,
        0x258113f6f5c915f918ec2c661c2accc6fe7273c819c9cd60b31e0ae727b8d143int,
    );
}

proof fn lemma_cube_g1_1()
    requires
        pow(3, 0x10216f7ba065e00dnat) % 0x30644e72e131a029b85045b68181585d97816a916871ca8d3c208c16d87cfd47int == 0x258113f6f5c915f918ec2c661c2accc6fe7273c819c9cd60b31e0ae727b8d143int,
    ensures
        pow(3, 0x10216f7ba065e00de81ac1e7808072c9nat) % 0x30644e72e131a029b85045b68181585d97816a916871ca8d3c208c16d87cfd47int == 0xecbbda4378665e2fc0d8f4d9873c1b15410609e540c48559bb59fca4843a3b8int,
{
    reveal(bit_step);
    lemma_byte(
        0x30644e72e131a029b85045b68181585d97816a916871ca8d3c208c16d87cfd47int, 3,
        0x10216f7ba065e00dnat, 14, 8,
        0x258113f6f5c915f918ec2c661c2accc6fe7273c819c9cd60b31e0ae727b8d143int,
        0x19f6812c7f39c5377fdf29a17ed1cbec1efc729133932d75dab587ace89f75bint,
        0x24de38530b85a326ed72a3a9c8ba3e09b859e2939a3e114004242d27c8db0362int,
        0x279908288f03b98b91164ff97f99f6caf4ceff989d9efada6c3e64f6217f514eint,
        0x26790acb769d6aad0bb9b1f8fc7b75175e84a956d0e4d8e2ce3de10ecc7c8370int,
        0x2ef482af08f89ddde08cb6689925caae26ca101bac6f876802685dc95746e016int,
        0x105d969b85025d54acf06d910ca6c244bc42ae14642ff95874f6fc7dbf62ccecint,
        0x7aec1ad27aeaa19d061b1aa2163dff11d9f1768fa6b428ab93d45d279c80978int,
        0x12f012e04dfe10193a3f61dbd8cdb184b163f1986c75a72e28958a692de08075int,
    );
    lemma_byte(
        0x30644e72e131a029b85045b68181585d97816a916871ca8d3c208c16d87cfd47int, 3,
        0x10216f7ba065e00de8nat, 1, 10,
        0x12f012e04dfe10193a3f61dbd8cdb184b163f1986c75a72e28958a692de08075int,
        0x28b0cc1cd4f5915b9ddd6071ef21cdceb8dcfcef3b57a5804669c54a86ba4ce5int,
        0x2a8ebf9b481f6eaa6ad0e191476669490536899e2d8ff0e1e544d5352f6a6d58int,
        0x1710ce9deec337f4975f6c6274035507b080aaf4915b61102df5d72447a1271cint,
        0x2cd792cc1e37496fdef0471302bb93257f35c408f0c3c05607199b11004dfd04int,
        0x1ac62a3713404970b78800d29e43e83780f420670a6734deec9556ec88f581b0int,
        0x7da02359ebf8a061cf6b0463a2af01887d87f2dc484e9a4feb8a7240eb4942bint,
        0x157c4d2e7e0d5200405bf8035276f5c7a1c4b9b9e8314671c1aa4838dad4c33cint,
        0x2557ff4e0e29935e3002ec9978095a2e0f51cac162af4a882df2d4c49424e0c6int,
    );
    lemma_byte(
        0x30644e72e131a029b85045b68181585d97816a916871ca8d3c208c16d87cfd47int, 3,
        0x10216f7ba065e00de81anat, 12, 1,
        0x2557ff4e0e29935e3002ec9978095a2e0f51cac162af4a882df2d4c49424e0c6int,
        0x1132b4810529b0483a59c68076d9fef4d6d59b08a1bfa96f2267c8dcef409107int,
        0x1879ea545c750612b4b78377f7556b6df83dc13d03936917fac3c36a697a856cint,
        0xd7ae0d67beb85d94a1dd449e436c019c7d409bb4505c53f9c55db0f2b07c10dint,
        0x2efaee2ebda9c5e613761c4713ae2ea5fa202afeffc4efa4e312507329473659int,
        0xb23ceb1ac335b509c4c56d433045a0f5b1ba744261a2c00beab146dc2971f7dint,
        0x23cf5c1f4c51da234ec14f39192529775c4d50b5e82fd517e1d138f8621a4be7int,
        0x2132a7ccd214e8e264a5800ec98d21d4068c5e07c9fa13765abada1740b71e63int,
        0x2dce601afa0f166554eff830ba19d4d65d7e7cefd573cc5e16b75d2db41f8427int,
    );
    lemma_byte(
        0x30644e72e131a029b85045b68181585d97816a916871ca8d3c208c16d87cfd47int, 3,
        0x10216f7ba065e00de81ac1nat, 14, 7,
        0x2dce601afa0f166554eff830ba19d4d65d7e7cefd573cc5e16b75d2db41f8427int,
        0x196241b98ef3d43aa8ee1a4c41765930c309766c148f62c2197d7839349cc43eint,
        0x129d8d5404c6522b63a8f84be9a0ef808174ac35f4686f1ff499131d46107343int,
        0x2d83a76e76bf831c755070e35613efb5a28cd13d185fd3c4a1a53bd5728c537bint,
        0x2d4eaa6890b0321a69804ab0de6e79094b4dca0cb6800e7754f1f65a53bf7d8dint,
        0x1b7b41422306793336c5585b2b733ea7a85628986580784eee2c9bf834346f65int,
        0x2b6a3aac3e31d4f43db848eb7178bc37d4244fb98dd5a75304461835d2bb13a7int,
        0x24d2a6413e6ba170e31bc9382dd2282f8e9c6615a3cc419f472b6ad89f7dc55aint,
        0x6f491fc7882c2371921ef7fd9374fabfe6d4712dc1f136fd5d78fef9ca33786int,
    );
    lemma_byte(
        0x30644e72e131a029b85045b68181585d97816a916871ca8d3c208c16d87cfd47int, 3,
        0x10216f7ba065e00de81ac1e7nat, 8, 0,
        0x6f491fc7882c2371921ef7fd9374fabfe6d4712dc1f136fd5d78fef9ca33786int,
        0x1445aa53422b757c274b8f1bccfc403d3f31673eb140130b1c821c4852e4553dint,
        0x12f3d6dbb400995e1de1ee3df2a4b919edda47c67496c05c04729709acb23f3aint,
        0xf93d4850088a21a79be9ed57822965711bac2aa4cc2621c88c0ba2f697c819eint,
        0x2967dc0bd1fa5c43f0391d3ad7e2b5b36c429e263a98aa5bac93e5a6e0eb5714int,
        0x1cdf58e8ca0bf6e6fad4e250cddb19af9fb4e208fcdaa7779e4e89debdac3509int,
        0xed658b362645a068540b75eacb3832ec7dc390dc31042bd5404d422e082a30eint,
        0x1382d2dd015a924bd7155ce5a6cde59f1daf5649577e2d3813fe59a21ec9a9f6int,
        0xaf5acdf6d3bc59225f85dc1214b70ab80e166c0d38b1054ed38b1c9aa258587int,
    );
    lemma_byte(
        0x30644e72e131a029b85045b68181585d97816a916871ca8d3c208c16d87cfd47int, 3,
        0x10216f7ba065e00de81ac1e780nat, 8, 0,
        0xaf5acdf6d3bc59225f85dc1214b70ab80e166c0d38b1054ed38b1c9aa258587int,
        0x1c542fe4c7d2b00479daedc05dbea6779c4e9f1c182fe93f7e6efb016a526a25int,
        0x159775f710a6bf9c7fbe5b1b49781e1c6bdb8e27c991bef637781a28c6e6a145int,
        0x2583dc864e21fad8a60fdd44fbf0e5f4c34d14048ecdac1cc7a66b2f4a7119bdint,
        0x23f1ec17cf7f19999c398b08690464023d917b00a4bc9fbdab90685673eaf952int,
        0x108bf75b5bcbd225b019f2328d2ee563c67f8392a2fcb59f0e3df8ef6fefa01bint,
        0x1363d7d5a4623772b7c9d97af2600b28a693ea09e6d60f6c47707af63c98d094int,
        0x111adbf2931d7373edc6089681bacdd5e35b29278ab7aec223fd568e489f11e7int,
        0x10163983395917590fb3015f904f900c8464754d3abd99ada88351690bad14eeint,
    );
    lemma_byte(
        0x30644e72e131a029b85045b68181585d97816a916871ca8d3c208c16d87cfd47int, 3,
        0x10216f7ba065e00de81ac1e78080nat, 7, 2,
        0x10163983395917590fb3015f904f900c8464754d3abd99ada88351690bad14eeint,
        0xba7dc342e81019b6246cab82ed86b5c5af4a12a2643a6e6e2ea0d513b4ddeb3int,
        0x984d4506b5074a4e4173c2832615774dfdd53b34526d59ec2ebb452116acd27int,
        0x3b5bc577da5042c0f7ab2eada165b2cb1e593cc9920f72d42ff588cf423a578int,
        0x2b3593ed9c180bb98461697a35a6ad77cee8754a2c31d34122ff6ef6041a3b04int,
        0x20f9423976a7f4190575b698f3c06a015a73991c5c6267edd6970f5d575988cfint,
        0x27d537e821986f7e62068c6cc897cb828fb7d608bd314c714674056638d7f961int,
        0x1dde3d9685b2cc497ddf0daec7cc9214af188206d3a28c51dca2baca82b173c2int,
        0x25957f275e3f05b503ddffa52a6e875532d419c535203e5b538f1694b6c5e567int,
    );
    lemma_byte(
        0x30644e72e131a029b85045b68181585d97816a916871ca8d3c208c16d87cfd47int, 3,
        0x10216f7ba065e00de81ac1e7808072nat, 12, 9,
        0x25957f275e3f05b503ddffa52a6e875532d419c535203e5b538f1694b6c5e567int,
        0x1396f7440211651697ea2504622d47f68bb64e2f3014248f7a839e7f1bfc6c76int,
        0x25b035cfc3ee178389a29649c0ffdf4930326fbc4f68f9518d76378a8cde4c4int,
        0x17fa36a37d191f317e52b73e143be8642f96f389fce7ae9cbe33bc9874b37a38int,
        0x141a9bc59ece59225e49063148bc8c191408b10df34db1dbdeea537348e9126fint,
        0x16c1767ff9936ce206553bb93e37b60c00715fc277661a62ca05e581c614a81eint,
        0x1a1d15869be48e58d1020695df130da5b90c7037ae32070078b45341495723b8int,
        0x2490291fccf215b183d1f0bf0b110511ae53a6d05f6ad7669b4699782e093a7dint,
        0xecbbda4378665e2fc0d8f4d9873c1b15410609e540c48559bb59fca4843a3b8int,
    );
}

proof fn lemma_cube_g1_2()
    requires
        pow(3, 0x10216f7ba065e00de81ac1e7808072c9nat) % 0x30644e72e131a029b85045b68181585d97816a916871ca8d3c208c16d87cfd47int == 0xecbbda4378665e2fc0d8f4d9873c1b15410609e540c48559bb59fca4843a3b8int,
    ensures
        pow(3, 0x10216f7ba065e00de81ac1e7808072c9dd2b2385cd7b4384nat) % 0x30644e72e131a029b85045b68181585d97816a916871ca8d3c208c16d87cfd47int == 0x15ade36aa020c2a25f120181f88466e1060ac096a5cd4946b2c05b2221dfa16eint,
{
    reveal(bit_step);
    lemma_byte(
        0x30644e72e131a029b85045b68181585d97816a916871ca8d3c208c16d87cfd47int, 3,
        0x10216f7ba065e00de81ac1e7808072c9nat, 13, 13,
        0xecbbda4378665e2fc0d8f4d9873c1b15410609e540c48559bb59fca4843a3b8int,
        0x2924cad7937cba2d782999a0b75a9b46d4508d5a74da953aea8b482c8c08ed0aint,
        0xffec430729c9fe91d28ce5161e21cf1d5a284207ef558eb24d919c8b89d92c6int,
        0x3bc421f20e600c2669902feb8c065b4ed4b1176fdfb22d5565e582906c70a73int,
        0x2ca22504401e985f9cf7f7e323b7b2d6ee122e277fa59b6670c4c3af8aa5323dint,
        0x6a17c11d9257f153fa78dca82d3d40509beeaef56c57f25c6722c50d6c83935int,
        0x11683f603f680032149f66afb8ba83888fd5659ec0a459b5833f829dfb73e8f8int,
        0x236964db065aa5c75742f7a26d6462541f03aa5b5d5273ae942822e0fbaefddfint,
        0x19b44d27bff25d38e979a9344f17734a860eaae21eb9e5a5192f91507c09314fint,
    );
    lemma_byte(
        0x30644e72e131a029b85045b68181585d97816a916871ca8d3c208c16d87cfd47int, 3,
        0x10216f7ba065e00de81ac1e7808072c9ddnat, 2, 11,
        0x19b44d27bff25d38e979a9344f17734a860eaae21eb9e5a5192f91507c09314fint,
        0x989a1e1eeb177e1e0b349febd3d001fd682173f86a2c5b4bc1c09a9023aeaefint,
        0xa76d57c70db70249d8af35e62229bb8651b60e6b7dcace5d3f7528d6e7a7388int,
        0x120e1caffe0868fe0eb819838c3b035b217ba723e28ec2484ded2fdaffcd7269int,
        0xfef43ca7dbb48ef2e6ae8db8e6b52b21ac3d238859bcd3686efe3f198984170int,
        0x285eebd903d6008c4e3a6e9d6ab9248d6e648626b1c30f81d920ed3e629ef2a1int,
        0x506c185c1c6635751647b4d2a16366c10426c54bc5c06a816eee8caafa0755int,
        0xc0b15e70e7ab1cc261b03b0ab114aefa755a211067a32eeeb16963bee831190int,
        0xbc4516a977c4fd8f9257722a82de6489bdffe41b9b963ace5836a67dd2b0ea5int,
    );
    lemma_byte(
        0x30644e72e131a029b85045b68181585d97816a916871ca8d3c208c16d87cfd47int, 3,
        0x10216f7ba065e00de81ac1e7808072c9dd2bnat, 2, 3,
        0xbc4516a977c4fd8f9257722a82de6489bdffe41b9b963ace5836a67dd2b0ea5int,
        0x3050e3d6b64609771fc248d830525b488ab97aa301e254444eb73d060c02e6dcint,
        0x18f72402fea32542461ce56140cbe1b80c2dd368eb846da372d1273c6b070544int,
        0x19e332ebc86a7089ad27fd815094a2f563fc42dea0a4760abac47dc986aba337int,
        0x10f6979496e1bd54908ff8378658ab8a7a2496987da2581df0d2d19af7f0504int,
        0x70cbcd05ba931ca53b0978e97ee05dfc77cb621ae3d23a5aa8fec84096e47dbint,
        0x1836c5ef860754200b052e880124fc95e59cb8c04708ce4de872b6ab681210daint,
        0x2899156b3f878d5a5ed3eb2a2c43a9305bf5e94186c145e88c18f63c1a633415int,
        0xf2a6b6076ada66e0a4a22f0cda106f665299c599faf72d45d579b748ad03b2eint,
    );
    lemma_byte(
        0x30644e72e131a029b85045b68181585d97816a916871ca8d3c208c16d87cfd47int, 3,
        0x10216f7ba065e00de81ac1e7808072c9dd2b23nat, 8, 5,
        0xf2a6b6076ada66e0a4a22f0cda106f665299c599faf72d45d579b748ad03b2eint,
        0x4d16df172dddcfe39bf526f5e5caf5f2bf0af45a07103ef32c76910f7bbd220int,
        0x2c4dc40fa2fb5162f733874ba31d67fd3875412e7a67469a12f6e6dbebda1af9int,
        0x2d239be966bce2511329d8b5e14658ae8cfebae855a0894a1593c91b2c6fcc40int,
        0xcf3b9bb6a6311348eeec806f0573a39b2fab0af4b4dcd177901dd8996e706bbint,
        0x29a9af54c1ff77f266ad43ee3117397b6934d3c2d9445c388659f6c0a33e7e25int,
        0x258ee0d3387feb08308a1f722dfd83a22f17b2719d289fbd5c6b487a72133576int,
        0x8b0a9df4fc5430946592559a179d3e40da45c35862924007f100d6c81ce7db1int,
        0xd455204422efd3cdcf4024890d72acf6557b9b473424246bc8b9cd631d666daint,
    );
    lemma_byte(
        0x30644e72e131a029b85045b68181585d97816a916871ca8d3c208c16d87cfd47int, 3,
        0x10216f7ba065e00de81ac1e7808072c9dd2b2385nat, 12, 13,
        0xd455204422efd3cdcf4024890d72acf6557b9b473424246bc8b9cd631d666daint,
        0x1b5f36a428de4903dd0cb9fc1f3cd568982c9cda6e5eeda8270126534966c6dint,
        0x57d9c24383c60035cdca78b5547f233dbbf45bad3db34ad4ab26e0099f093ffint,
        0x5033fb07ca29d869dc9c1683e0e03a10e5dd22315e4a83c99f4e474d23c7522int,
        0x269dd1c6ed8ac332f3dbdc3fab0ef8ce68a492cf3383c351e0594aed2bc1303dint,
        0xa1039daf2b8ab99e807c2fe98569261b47f2461d1fe803f76a6fa62708897cint,
        0x2424495326047ffea43a7ba9fe85df4ac5dc78896039c097c2ac1c82f6d69950int,
        0x23d223f24e6a3ce6a091b0e04db735981271a7a23a433596921af6266fe48481int,
        0x1d7d12e255ee174ab33c7357c952ab8f477bb0340bd3262f8d9e18214c523e7eint,
    );
    lemma_byte(
        0x30644e72e131a029b85045b68181585d97816a916871ca8d3c208c16d87cfd47int, 3,
        0x10216f7ba065e00de81ac1e7808072c9dd2b2385cdnat, 7, 11,
        0x1d7d12e255ee174ab33c7357c952ab8f477bb0340bd3262f8d9e18214c523e7eint,
        0x4415426cb6d576d9c594faa1eddec4479188308440d0f427ca075f5946fa99eint,
        0x1141542f46eab5d5970f2d6660c56a015a6912805a5287563f765e14d0b438ceint,
        0x2435b953d9d036b37f8e21a67a0bc5140c8dd484348722b6c10f9bd175f8fa3cint,
        0x23230ce8b1e1ab5594109f163e95bd7ec3869dc5cdee5fc72ca3d3755e4d4798int,
        0x23c7ab02b8c69eb7936fa0cef78c8eab1a104b5881f03eb1642f79b23096159int,
        0x26a282428164680d8c9ed1acbb40e89ae28ad004a4d253aad58ed799257a1552int,
        0x2aeadeaf044c892bfeff8d14112d2641c911bcde587ad68f341af8fa974f2d53int,
        0x1e347cab167f31f0d048e1efd1bd31f753ad1a18a6bb25db3f1053000dce7381int,
    );
    lemma_byte(
        0x30644e72e131a029b85045b68181585d97816a916871ca8d3c208c16d87cfd47int, 3,
        0x10216f7ba065e00de81ac1e7808072c9dd2b2385cd7bnat, 4, 3,
        0x1e347cab167f31f0d048e1efd1bd31f753ad1a18a6bb25db3f1053000dce7381int,
        0xb146f40f12b2793c0fb060f0b9b1ba97181e6800510346c15127909b78bc26eint,
        0x1b18e9419d0fce8cb6ba08ed6d61c058c4356bf323ef9ede3b17824efbea27c6int,
        0x2545c179ed7ff78f7d89bcac4b40a037fc461a013a620cb72f10ea83aedcfcacint,
        0x281172bf5bc4a0eb2e00bab17c4d05918df75f31a2d4831b72ad11db74b981b4int,
        0xd90209ba6bb92a4341c559e54a4cad0655f55d9176e227e3be97757973d7d6fint,
        0xe0ec5b057710a9b8d63f460f5b2e13a2bd553119628ca8c69b01636a3fd339dint,
        0x1ccc1d2c991ec5ee840222f62f28df10f635a853182e221abe2b24e03418cb80int,
        0xbc91d18160bd1ed7790b5bd7a5fc29b57939e689cf78019c5a5c2f35420bd63int,
    );
    lemma_byte(
        0x30644e72e131a029b85045b68181585d97816a916871ca8d3c208c16d87cfd47int, 3,
        0x10216f7ba065e00de81ac1e7808072c9dd2b2385cd7b43nat, 8, 4,
        0xbc91d18160bd1ed7790b5bd7a5fc29b57939e689cf78019c5a5c2f35420bd63int,
        0x1f093827c7a2d6f844b999e020893d3341fc5e6d1a9916eee2f9b65c84030c99int,
        0x24cab4cc6f64a00b9b7c04585d37db53175b64f1694af7b23bbbb7dd3db048c8int,
        0x13d086ae7947e83ce50ead72ca811e5d30f9aac05235684b268a1016439d0de9int,
        0x1a3f1ea9d2f93f2d6ccd243c8fe349c15a9cc47cb1846fd4e8b507e2b27af842int,
        0xc8112be9e0e5ac97fc7e78a473803897906c05f0834c8798c220b420057f284int,
        0x21e8d165b559572f248cf18c775154a33cb821579db62587c8d31d4074516985int,
        0x4559991e39984458549c6bb357d08d019d5765786e41cfbaafe2354db81d136int,
        0x15ade36aa020c2a25f120181f88466e1060ac096a5cd4946b2c05b2221dfa16eint,
    );
}

proof fn lemma_cube_g1_3()
    requires
        pow(3, 0x10216f7ba065e00de81ac1e7808072c9dd2b2385cd7b4384nat) % 0x30644e72e131a029b85045b68181585d97816a916871ca8d3c208c16d87cfd47int == 0x15ade36aa020c2a25f120181f88466e1060ac096a5cd4946b2c05b2221dfa16eint,
    ensures
        pow(3, 0x10216f7ba065e00de81ac1e7808072c9dd2b2385cd7b438469602eb24829a9c2nat) % 0x30644e72e131a029b85045b68181585d97816a916871ca8d3c208c16d87cfd47int == 0x30644e72e131a0295e6dd9e7e0acccb0c28f069fbb966e3de4bd44e5607cfd48int,
{
    reveal(bit_step);
    lemma_byte(
        0x30644e72e131a029b85045b68181585d97816a916871ca8d3c208c16d87cfd47int, 3,
        0x10216f7ba065e00de81ac1e7808072c9dd2b2385cd7b4384nat, 6, 9,
        0x15ade36aa020c2a25f120181f88466e1060ac096a5cd4946b2c05b2221dfa16eint,
        0x2dfd2be64f12ed5c072907cee4da973cd425be0e4f319525d05627b8282d3388int,
        0x2949453f69141a95c1cef4e67f1a4f396c8da812e9d38ead4ccec167dcb31520int,
        0x2a8c4842c58f3f6f4b8c00ffbf72285b8325f295a2c4afaf5bae696c64d29fbfint,
        0x179631b31d42b174ee99561dd780b3d6ffa232ed6b0810a9e49b845aecd8580cint,
        0x1cd0980a44eb833510490c72f10535575ba134700439578a7a9ec75b477d9fcbint,
        0xfc05f40309318b90b2a21e4bdc192c460d1c2e5401f774a0350b7b7e722e8d9int,
        0x1fe8ed2f842e4b551f695470c55f442b11d5b3b4c746ba41d1b88eb6c92a347dint,
        0x338d24d91d0d97d083727bbb783af721d9cca5f53b8cd1166a4053ec7d0b5bfint,
    );
    lemma_byte(
        0x30644e72e131a029b85045b68181585d97816a916871ca8d3c208c16d87cfd47int, 3,
        0x10216f7ba065e00de81ac1e7808072c9dd2b2385cd7b438469nat, 6, 0,
        0x338d24d91d0d97d083727bbb783af721d9cca5f53b8cd1166a4053ec7d0b5bfint,
        0x221e4083ddd7e834a95ef46466821b0fe7f4b0f6464ae8aca7d2155ae5bd370cint,
        0x8fb625fe38c4fb196e849bfefd96eba4c51763514dbb2494cbcc5bc52abd914int,
        0x1c5585f57440fb191ac9a4ba8ffae6007f497cbeee985b6169aeddc42e94aa58int,
        0x11f0759455eb0d37c532b22c9b28cbecb1030a5b58ac156518b4bb23daba969dint,
        0x378ed3d07f7ca6f7a77be72dbf3fb6615fb146f611ba309fc3d7d9ae8991246int,
        0x1504f09c6a203d2fbb8a89d5e2bd1b36a1bcfb6b088c0de129560b3b6bac263bint,
        0x14bde814b32665f62102f34d75f66eeeef3745dd9197f16e00065865dd533386int,
        0x5eef78bd124165346adb3fffe1c1042c23cc6a522cb2dccb53506a9b0660103int,
    );
    lemma_byte(
        0x30644e72e131a029b85045b68181585d97816a916871ca8d3c208c16d87cfd47int, 3,
        0x10216f7ba065e00de81ac1e7808072c9dd2b2385cd7b43846960nat, 2, 14,
        0x5eef78bd124165346adb3fffe1c1042c23cc6a522cb2dccb53506a9b0660103int,
        0x29d64fd476262c5538f85fbeff0b9722ac79869b66033b6d7333158d14bfc2e8int,
        0x207643d2bfc7fba01c4f20a560c65775f5cacb2e672cb9b049ee57c7517589b0int,
        0x6036ccd19a3a42ad5230654a51919d174870ea9c6f1e713a982d23100603af8int,
        0x49f1d8b081517aebb0df888be0863a5ff1e8a3d4f16d13be87f88055d48808int,
        0x177331c7c28dc02037509b0a572a51ceace75b6db97134591a69bfefbcd18ca1int,
        0x2b6b515ebd92dbf5927ccc1bc75180c3a0c093bc5fccaf378242752135fd4ebbint,
        0x3c394a862ce392dd08e332e541d57028a2eece0153b57f531cedb5438be9497int,
        0x26b2725028c73ed03820f4218d2621fafc9b9ec9fdce05bc37c1628af55b64ecint,
    );
    lemma_byte(
        0x30644e72e131a029b85045b68181585d97816a916871ca8d3c208c16d87cfd47int, 3,
        0x10216f7ba065e00de81ac1e7808072c9dd2b2385cd7b438469602enat, 11, 2,
        0x26b2725028c73ed03820f4218d2621fafc9b9ec9fdce05bc37c1628af55b64ecint,
        0xa7e7221008e6b8f422fb01526f1be98cf6bba0a856af966388089c1cb5eb996int,
        0x389a244f95b6ea4e8f46f7c89f55ef074b4dfc9fcfaae9b9d3959f04e90cfd5int,
        0xd20bb2120b3164674d449fd90ef835ff149fed9b53e26f652d98065a1187e5int,
        0xad243cb9eaa526acecdeb7fe55dd2e4b532bc33e89a7c697db0405d01b9fe7aint,
        0x302a4656a0db3b6a059750cf59eb16d2f511bd6a1e124c1f6b895711c10c202eint,
        0x11391428128b2280e29c72f3bab921c21a14f795f6f51212693e52da5d62afa4int,
        0x1e09010ebb0a060fb721bb898b71071c761edb09aaab28528d2d7f96e271ab03int,
        0x13a5372a2e1a3bccbccf8557885a3f0a961f09c8045c71ec34bb981586f8b0a3int,
    );
    lemma_byte(
        0x30644e72e131a029b85045b68181585d97816a916871ca8d3c208c16d87cfd47int, 3,
        0x10216f7ba065e00de81ac1e7808072c9dd2b2385cd7b438469602eb2nat, 4, 8,
        0x13a5372a2e1a3bccbccf8557885a3f0a961f09c8045c71ec34bb981586f8b0a3int,
        0xb69094e391cc7ddb840b6d4e0de854bbd91cc5f2e18b1dca9a5ef3cd9687538int,
        0x19fe87df58accc7ea146e33bdb6017c5b3eb3d79e8dbf89266257ff55b66439fint,
        0xea57f49ca0fed0930e1c30f438aef01b0ea73b487f03c3687e7cb0949e7998dint,
        0x1e3dd3b3cf5b4c04f00b13efafceb9a4fe5e2516dcfb007e6af65e750f0f4d56int,
        0xd0522eeea00f2200c2424da967226288788180d80bfddddfae8f9891c46ea4int,
        0x15da0a0da05556faa112eac53f3b53e1b3e18a99ff1d41c6fb641ed547fd551dint,
        0xba3285200bf1afcecfb977838a58ebcee852a463ed6d34cf48e3d1ffff4b52dint,
        0x2dd9bac3739dbd69dd5d134eab220a341b6e78e4ec39cc1b6289dcf87151c7d0int,
    );
    lemma_byte(
        0x30644e72e131a029b85045b68181585d97816a916871ca8d3c208c16d87cfd47int, 3,
        0x10216f7ba065e00de81ac1e7808072c9dd2b2385cd7b438469602eb248nat, 2, 9,
        0x2dd9bac3739dbd69dd5d134eab220a341b6e78e4ec39cc1b6289dcf87151c7d0int,
        0x23eeaf8768ec29c2410e833ad8121103541e9355e35eac3ac93bef88a6bcde97int,
        0x2b717c4e4a189c2306fec88dda911b1f4f1baaa75d2e04a9795afa7245f38ddaint,
        0x1db328aaadd59fbd055e24f2f1f6ee652b1a0d28ff99c046c7a673fcdbd1f493int,
        0x14f65b48a4662628b1257a635389fa228fd6da0d0308da521c0046be8e3abe50int,
        0x11b971fbe4dbf3b0c65344d5f0183e84bc2737cb3eca3a3cf66636a34b6bb9ffint,
        0x5cfb05bf5703fe9c45947410de3d8688ce60c3d44c408bda403c6f75c486bb9int,
        0x3fbad079b4fc235e179ae31e7250912925ede50448341c70e3f10ae9ba535b5int,
        0x2e1fcbd7e178504077e1e5490c95cde8bbf67d6d4cd828211377020123d24906int,
    );
    lemma_byte(
        0x30644e72e131a029b85045b68181585d97816a916871ca8d3c208c16d87cfd47int, 3,
        0x10216f7ba065e00de81ac1e7808072c9dd2b2385cd7b438469602eb24829nat, 10, 9,
        0x2e1fcbd7e178504077e1e5490c95cde8bbf67d6d4cd828211377020123d24906int,
        0x5e69d741d63753ced60a624de9f6630d9d53f8cd3ad92e85367da0b62ff4e3eint,
        0x3f8f3d82bb37f8b76c6208f28b324f8bca4254ae3d79d40b39b7f965c184836int,
        0x1eaf2dd790d8cf2047655d0600ac6879446589d5c7a9eb14f6eec7e88e8c2946int,
        0x8ea821e24031fe659c954afbd0f19435b028f614e4b521a65a642baf4680a68int,
        0xa04bc9250b176e613f8eac415dcb1cb5a5cb3700ed72c441990e801dbe42dd2int,
        0x168ed6ccbffe3ce8c5ccb7e8d0e228e1124f777352d7e58e36cb96cb0cfb2ba6int,
        0x10ec77ab7907aa5375262d36e136332e149f0d4d44a5042acd875438dad69e58int,
        0x23380b5a0f929af9eb000d2950968de6e63fe22da1c4558899db06ddf4659f1int,
    );
    lemma_byte(
        0x30644e72e131a029b85045b68181585d97816a916871ca8d3c208c16d87cfd47int, 3,
        0x10216f7ba065e00de81ac1e7808072c9dd2b2385cd7b438469602eb24829a9nat, 12, 2,
        0x23380b5a0f929af9eb000d2950968de6e63fe22da1c4558899db06ddf4659f1int,
        0x2c7e7fbe65fb6619c061cc1877912cc544c6a241304cfe3b266b75a8d7cf438cint,
        0x1fac13e58b80925f784bc64076ccc92525a181015c6209baa7b64b2d4844efd3int,
        0x1ecd814372e2b4ff5c4431f5b2f38562ce4aa48ed3b41ca29cb119ecc26a63efint,
        0x1634b7f1517eac0d81814ba0a662b8a6342aabeb5284b17ceb75a7abffb2dca6int,
        0x1df623ef8af183e446fb76a5e4491ec5a6f43d23bcd213e2int,
        0x1df623ef8af183e446fb76a5e4491ec51d2117bb27ffffffint,
        0x30644e72e131a0295e6dd9e7e0acccb0c28f069fbb966e3de4bd44e5607cfd49int,
        0x30644e72e131a0295e6dd9e7e0acccb0c28f069fbb966e3de4bd44e5607cfd48int,
    );
}

/// A power of 3.
proof fn lemma_cube_g1()
    ensures
        pow(3, 0x10216f7ba065e00de81ac1e7808072c9dd2b2385cd7b438469602eb24829a9c2nat) % 0x30644e72e131a029b85045b68181585d97816a916871ca8d3c208c16d87cfd47int == 0x30644e72e131a0295e6dd9e7e0acccb0c28f069fbb966e3de4bd44e5607cfd48int,
{
    lemma_pow0(3);
    lemma_cube_g1_0();
    lemma_cube_g1_1();
    lemma_cube_g1_2();
    lemma_cube_g1_3();
}

proof fn lemma_cube_g2_0()
    requires
        pow(60516, 0) % 0x30644e72e131a029b85045b68181585d97816a916871ca8d3c208c16d87cfd47int == 1,
    ensures
        pow(60516, 0x10216f7ba065e00dnat) % 0x30644e72e131a029b85045b68181585d97816a916871ca8d3c208c16d87cfd47int == 0x1cb7081b98945bdb9fa0fcd70d51cef0746e0a8e63f8cdf6aa531f7587c831b4int,
{
    reveal(bit_step);
    lemma_byte(
        0x30644e72e131a029b85045b68181585d97816a916871ca8d3c208c16d87cfd47int, 60516, 0, 1, 0, 1,
        1, 1, 1, 60516, 0xda488710int, 0xba1f9a938041e100int,
        0x8751f085236e96344c9e57f407c10000int,
        0x17233773a06755e9ad08c618c29088776d321fad7e022592ba03936a278302b9int,
    );
    lemma_byte(
        0x30644e72e131a029b85045b68181585d97816a916871ca8d3c208c16d87cfd47int, 60516, 16, 2, 1,
        0x17233773a06755e9ad08c618c29088776d321fad7e022592ba03936a278302b9int,
        0x2fecbf0e229726dd5309703c1c6cb74ef04be6300a9e962e5a882a38a84c7caeint,
        0x2091a70d4cc38975be6c927ea93a7b1f1bdc646933d2f787ec2a5c87647eb11aint,
        0x2ad6f56378dab1dc28dd4fd33c8b50d4c08dc82eaa3d0afc7c9c83e71f64453cint,
        0x1cda703c9ca54af293dca53d13bfd3fec6eeb7edd8bda7ca8065dbdbbca254a2int,
        0x19a20ab4520bff6e568f910e4a35b07816519efa3550bd8e275d3970a41574bdint,
        0x25fb8f26841e16cda5d9d055f387b732fee55303eff0c4c7d7b284a26237f153int,
        0x28510b22d29a2cf44af93fd7b2dc452a73db3f46be502ceaaf70be5dd8f06d48int,
        0x481cfa7f6a305ac75930ac2d1364a96f14333d753be16ad2cccdbeac73a141bint,
    );
    lemma_byte(
        0x30644e72e131a029b85045b68181585d97816a916871ca8d3c208c16d87cfd47int, 60516, 4129, 6,
        15, 0x481cfa7f6a305ac75930ac2d1364a96f14333d753be16ad2cccdbeac73a141bint,
        0x2e4e2c83e2bce6233f6c4562135ab3dbf050c6f712b9a6f432e3062e41c0ca1cint,
        0x4f54e02d8ce6407b32a042940a14150edefd98ebd74a9b9c0696f1d696f7bafint,
        0x2db49ad2f8ea600696012e6295b45f7d0489672bd1d9ae05ab90b5a5f1b9f288int,
        0x18ad5b0c38f016094b6d06c95e67da56f1ad888871621edac221523e0c60bf70int,
        0x260f954bbfbbe39ff6e509cfd061d111ed174fcb580ff4a4ab1ac93316feefefint,
        0x25309bde8749ff2dcc15de605e97c1ecd007811b6ca2d7b9a65c828bf4bd7306int,
        0x80c73a432c51ebd40e1490fefd1b50c3bb93a19f5dbbf3022a37f01495b8c9eint,
        0x28a8a2b5e0fb492722237c2de3c48ae1167fcfa8631ec9e8f19d287972bcf801int,
    );
    lemma_byte(
        0x30644e72e131a029b85045b68181585d97816a916871ca8d3c208c16d87cfd47int, 60516, 1057135, 7,
        11, 0x28a8a2b5e0fb492722237c2de3c48ae1167fcfa8631ec9e8f19d287972bcf801int,
        0x2f31afd480bb21b5a97e01ca5c9fddd15931af1ab673b4347804866be92d8e78int,
        0x2785daeadad5becd4e9b13b8a4e3075ee94424cab61dfbec51aae1cad8e7ed2aint,
        0x17cdf42acf9c82746fe05135bfb0f4a532dafc244685e355ef6fe2fd027e09b7int,
        0x12b7766504f2d6f59761ba8c0aac7296d52b235b9756e2734dc77262d065ae6dint,
        0x28bcfcf0361ad6612c5c6d2f467d7cc0b823143da8f6c823e8687941a407bec1int,
        0x23908446b78dc7f7676a1142da4dd909b7106f64ca8292b8aa398db41c48a395int,
        0x1d0915bac5374e88a45ad40d54e614e4998c91707f7e2265e788518f1c440413int,
        0x15be9e91fec109cd65ec9d6a4a0ff857ed0db8fc91ba75eed929b84d31fa9969int,
    );
    lemma_byte(
        0x30644e72e131a029b85045b68181585d97816a916871ca8d3c208c16d87cfd47int, 60516, 270626683,
        10, 0, 0x15be9e91fec109cd65ec9d6a4a0ff857ed0db8fc91ba75eed929b84d31fa9969int,
        0x10c0da393364618fbf59711ee3e3e87dd61b600f65e15846cc67ec402fe51454int,
        0x282c29dcfa849db96738c6ccca430810a393249cb3ec7d0af570b17bedde813fint,
        0x19d45095fcb1d109ff9cb364142b609c8a9e173ca21db536e38355e86a6c4205int,
        0x1eb00c9e2bfdca9c7a14566f246c65f267016138b78d21e4a67f65630dba551fint,
        0x1faab12aa7c1bed5ecfbe2accc64c904e794611817532812ce8aebd747d6950aint,
        0x23cf9a9a76a966c323ac74c4d4f0e9b52232acb51e042070a0ce76e0bff109ebint,
        0x4127645730767bf23af416ceb75626991a5cdc11d866328060553cdc2f7835cint,
        0xcbe2b534c67c661cd977c19df88aabfe9d61b3bffb61576d527c0be379fb0a5int,
    );
    lemma_byte(
        0x30644e72e131a029b85045b68181585d97816a916871ca8d3c208c16d87cfd47int, 60516,
        0x10216f7ba0nat, 6, 5,
        0xcbe2b534c67c661cd977c19df88aabfe9d61b3bffb61576d527c0be379fb0a5int,
        0x2ca793983d4a2e17bbc1912d58716d1654722a762558fc0a500d0e7cbcd3343bint,
        0x793a72cebdea1187e384badc0eaccfdc6fa10faea8c77139d46f7b2da8217d8int,
        0xec9cb901d096c723ac91db7084935fa930c226f61eccf3994025b8d2c864d5aint,
        0x1270430008fb8f54c8d234ca10c8a58d51159790a5b26442a7cd5c34741284a5int,
        0x15ff6af78a336859e0018086b6cec441e059dca187147e3f72a9e001ddef214aint,
        0x1bdfd133a1ad17f7f15e097856f502cc16da13da1fa9580a490595a62408ac99int,
        0x2614bff19f2d321b532371c6e89327ed1eb8e098b17c511f3178df7544730fcint,
        0x96156c395fb218b46014d0b44dc38967d8a7099a2fd676c23e9a8bea5ab8373int,
    );
    lemma_byte(
        0x30644e72e131a029b85045b68181585d97816a916871ca8d3c208c16d87cfd47int, 60516,
        0x10216f7ba065nat, 14, 0,
        0x96156c395fb218b46014d0b44dc38967d8a7099a2fd676c23e9a8bea5ab8373int,
        0x11f4bf3ca4274da729a1fea5e1355e34e180b4e359e27685aace65f961efeb76int,
        0x1dca2fead72a12e0fe41bcc803b8d424ef6d5d4d6b4c904e3adb7ce728a60d00int,
        0x28e20b44de23a7bb0af40cb25833bf35a6f547334c7af3ed8d9c2e8f6c4733c4int,
        0xc9b3941aad6521c22d1888372ec520fdb6c78d9d77c45c1677e2f1977029315int,
        0x1502dd2b9e528f6e40e9bf0ac6e41c87bb61f38caeb6e9ad933a2ba3aeb97111int,
        0xf42d89716d303f562699d59c8e58882cc82433032c38df64344f13b4e4bd10aint,
        0xa4eafaf792746a1fb6fec1fb13898d77dc8d2c836ed338ec7f1bcc5a3995357int,
        0xc037d50bf2a94ba5d1f9e6fbd2985a13d800eecdec53d7b843cbe1fb34cf652int,
    );
    lemma_byte(
        0x30644e72e131a029b85045b68181585d97816a916871ca8d3c208c16d87cfd47int, 60516,
        0x10216f7ba065e0nat, 0, 13,
        0xc037d50bf2a94ba5d1f9e6fbd2985a13d800eecdec53d7b843cbe1fb34cf652int,
        0x2fa6c84096a927f00d066908a96d191de5c3705e3cdbe4331752f2b57daaf72eint,
        0x1706252d721973bd40fc412904f0e629e5296a27b09b01afba9365f2b697ef0fint,
        0x259f48cc7078099b3f3bae843394d909d0fddb865aa2891e5c821b46059ef56dint,
        0x21c40176d8004571c2d6f33c5d77d8e55521ba94d87ba2185c8308c2d7900c8aint,
        0x156fe0fd0cbe5c050b78eb8b4dde012fe4c65a281edf65695715c99aafce724cint,
        0x5ae0550a614ae55605696ad126fe593381ffeaa8b53ba9e2e77c85d03a385f6int,
        0x220e348544ec69c0a50365067845cbbaf382515880d120cae19e65ce68a9c321int,
        0x1cb7081b98945bdb9fa0fcd70d51cef0746e0a8e63f8cdf6aa531f7587c831b4int,
    );
}

proof fn lemma_cube_g2_1()
    requires
        pow(60516, 0x10216f7ba065e00dnat) % 0x30644e72e131a029b85045b68181585d97816a916871ca8d3c208c16d87cfd47int == 0x1cb7081b98945bdb9fa0fcd70d51cef0746e0a8e63f8cdf6aa531f7587c831b4int,
    ensures
        pow(60516, 0x10216f7ba065e00de81ac1e7808072c9nat) % 0x30644e72e131a029b85045b68181585d97816a916871ca8d3c208c16d87cfd47int == 0x26442ede40817b666a0782fd0dc2622225449d6aa8358782f706792ca59021aeint,
{
    reveal(bit_step);
    lemma_byte(
        0x30644e72e131a029b85045b68181585d97816a916871ca8d3c208c16d87cfd47int, 60516,
        0x10216f7ba065e00dnat, 14, 8,
        0x1cb7081b98945bdb9fa0fcd70d51cef0746e0a8e63f8cdf6aa531f7587c831b4int,
        0x968b631ecea0a165bb4c1275d0bb58e4d437247b97600f9335e68a1c2e7c1fcint,
        0x81903ceac3e4236cb8a7c870bb1e30f38097403aa2ee5f516b8686e4ac001b6int,
        0x15497a6fb707307ee7abd1a5927c8d4942585bbdf24ac2a0dce6768438f772e9int,
        0x23af07df3350ec5e18daf0557ff75a2eeb3325e13a5bc1e7d6415b4789e162b0int,
        0x2ab50c7c1d90295961e70a034d1cde02b750e9634f5febf3191ecdfb4f24df95int,
        0x1275edd1e6d059ad1d2a8c9ca1db303d5eff94ec5951a63f283f9f252cc773d8int,
        0x203a2c74a2d933cb708cf355564c116c73de5c4c0241ec46aaa39f209f1b897bint,
        0x3fdc0b797dc16e39b035b9570f574e748999b0dc726a4ee5f11f8e20bc5a0a7int,
    );
    lemma_byte(
        0x30644e72e131a029b85045b68181585d97816a916871ca8d3c208c16d87cfd47int, 60516,
        0x10216f7ba065e00de8nat, 1, 10,
        0x3fdc0b797dc16e39b035b9570f574e748999b0dc726a4ee5f11f8e20bc5a0a7int,
        0x953a05237e959a74dfeffe52d6d1404f148fd81c54213245fe9a5786df8354eint,
        0x199cf9c767993438f15e278aef397d0d4ca771a47524a28753f18ed4a1742b9cint,
        0x1fead51137ffc0b89739b6766f1c7a9f0b6843f00125d967ce9efd5ed6016630int,
        0x1c5dbc1dac5ee1538d98fd735def9cd047d5f9e228aad7d4474e78ea9d930359int,
        0x15002ed8731004102e0214540a10c4760f0f9809fae6cbeb27f6d61ad75f574fint,
        0x21395e8f315bb42a5c851c2f34ff65873ea65d9928675248c2c4340416892601int,
        0x1f23d73314deb9c8980513642a7600b0a2e9fd2bb96bd00146e2a74f1943a710int,
        0x1ac5de82af0723d917c1cdda10c6bb0a42cd8354da6b86a22f40b803e43f1285int,
    );
    lemma_byte(
        0x30644e72e131a029b85045b68181585d97816a916871ca8d3c208c16d87cfd47int, 60516,
        0x10216f7ba065e00de81anat, 12, 1,
        0x1ac5de82af0723d917c1cdda10c6bb0a42cd8354da6b86a22f40b803e43f1285int,
        0x58e94a371f87fe206a9d56e81623713ff24595e345cbfe3bd76cbcf9d6e93f1int,
        0x19fdf22a30c0a12add4c3af9eaf7e8f73d259552abe629631d4c6ee65e0e2abcint,
        0x117549e5b4a0506783d4264f7fcd6b850ca2ac6a2b6e22d12791855bbccfc9d6int,
        0x190348324a8fe91cad163b421c7c2cc51ea74d7cfe26a630a9ba937d6fce7700int,
        0xaa1a1b91b8d6c83dbdf5e6bb54cbe3e07715db1212334d03aa000868ecfc550int,
        0x1cff7bd5a2b7f50da87883f52b6d26320bf25d2524c0edb2bc5c36977d5147a2int,
        0x275eedb6aa18d41dbc255528de0bd14dd5939f4574e1fa984d413307d9501820int,
        0xd1cb8d8dfe9cdc7de11138d837db416302670dff762865676fe9abb534e9258int,
    );
    lemma_byte(
        0x30644e72e131a029b85045b68181585d97816a916871ca8d3c208c16d87cfd47int, 60516,
        0x10216f7ba065e00de81ac1nat, 14, 7,
        0xd1cb8d8dfe9cdc7de11138d837db416302670dff762865676fe9abb534e9258int,
        0x9e2259436a0e065521d4afc50aeae1f39024d909a28735c4586c9c27e31fc61int,
        0xb199ac36eee8a0e6fc987c6ffe3be9bc47c07590d3b2c606948295bc8d046bfint,
        0x1288db822a7cf1711c4983b9455493691331de3e250b6fc4f21e0659b9308841int,
        0x2a9f392c028bc043a992cc12383736184fddcce96fd3665e37238730edda4c85int,
        0x4bc6d8561fc998d884fbf59a52b29af6489aa562d504e318b2a8de9971fceb9int,
        0x295cc03859973c862c92862899b001abb93a1f6389d4477fb555da2b0a3bec4eint,
        0x1ce99a979e085bc9593fe33c671b6aaa14cc9abce5ad28db63e0202dba66ba48int,
        0x24cc342ffb5983a1d43285949c549c404a1e4c7813e6c8b944dbfef4599a4a29int,
    );
    lemma_byte(
        0x30644e72e131a029b85045b68181585d97816a916871ca8d3c208c16d87cfd47int, 60516,
        0x10216f7ba065e00de81ac1e7nat, 8, 0,
        0x24cc342ffb5983a1d43285949c549c404a1e4c7813e6c8b944dbfef4599a4a29int,
        0x64aa668d5ce09562fb0f5ad0ced899043c533217b7844ffcfddebb3adda5908int,
        0x2ead113325c3f1567c80bdc6aeb346b957c5724bf7d5509bed21334c8aff9d15int,
        0x1aacdbd0af2bdaef64bc63a5385535883f073602e7677de4c2cd92229f0d6981int,
        0x2a05abb151c8a8ace6b767230eec25f077a55f9345a0722c43c53fb17b0610b0int,
        0x1fe3600f245b67e30631e4b618100c453f23e9dc074f9ff6d10422f24bb44d07int,
        0x2c68c65ba08a0bcd16457ef649df52fb5df555087ea395272815eb8c1976a159int,
        0x7762e60609278d088fe5541da4afdef9cab56f46e3448c5244788590023a6cbint,
        0x1925018b995abc9286c89b3b10d56bb83c6ce8931dd7bd388a65aabe634315c0int,
    );
    lemma_byte(
        0x30644e72e131a029b85045b68181585d97816a916871ca8d3c208c16d87cfd47int, 60516,
        0x10216f7ba065e00de81ac1e780nat, 8, 0,
        0x1925018b995abc9286c89b3b10d56bb83c6ce8931dd7bd388a65aabe634315c0int,
        0x334a042d02fa2c4814398320f8b857f8593ea4dbc93f1f10b44d9b3098ef6d9int,
        0x68d0536e80cf47468899d450790ba9b3a70ecf3d686104ec62b4780b4cc5073int,
        0x853a2d4b0b38357df7206a12039e25261526174bbe530e8635b3e20680623e6int,
        0x14e1e7c559dda9c019f2b864c1d11cb01b10ff71b11d6645789eb9339266b287int,
        0x260a885b2b7342b70762dcc5875992c1c7d8879e33131087d9c21935fa6667c1int,
        0x9ac83b23b9815ae2cbb5a1438d63983f897f6a2fabec4326de80d8fd8e4815int,
        0x440999c0b3613bfc4829f0ffbe2fc8741a32559143eabe3ee7c3c449f093797int,
        0x1cd4b62a9c4369defef45e6a8186c2ed06c52d0104c38ec2b0a28062d292472eint,
    );
    lemma_byte(
        0x30644e72e131a029b85045b68181585d97816a916871ca8d3c208c16d87cfd47int, 60516,
        0x10216f7ba065e00de81ac1e78080nat, 7, 2,
        0x1cd4b62a9c4369defef45e6a8186c2ed06c52d0104c38ec2b0a28062d292472eint,
        0x1d2eb53e6885073f280eb8b65c14a73e6731b3451341e4aa023989ff9f6cb73cint,
        0x1b6213257c34680864f8af39ed591b6cddc465988f5cc5229ca9d4554837537int,
        0x51c60b167085eb85c85eb50368e6308ee84e219162d333995ffec2c7cb260ddint,
        0x150cdc7bb139ca0e95daed40b7ac0481f1295094b54bc9dd90dec09c52d6e9deint,
        0x489a7edc6eaf213a7bd9459fd702d94e0271cece7f44515a35f7cd4ddbeec35int,
        0x14b6feca497d8b0842364c5d527126516418e06ac81a55c52bb27c0d4ba26904int,
        0x54c81f4dba7ae346941f6f91fae985fac672233e9e9f797732be8dfa4ba7a08int,
        0x2283874211d873c2b98c42ce7953c08cf854b9de23d0c9629280fe0930951027int,
    );
    lemma_byte(
        0x30644e72e131a029b85045b68181585d97816a916871ca8d3c208c16d87cfd47int, 60516,
        0x10216f7ba065e00de81ac1e7808072nat, 12, 9,
        0x2283874211d873c2b98c42ce7953c08cf854b9de23d0c9629280fe0930951027int,
        0x1f09348bca8356a4ae1196ad76c6f0c7002d8739af4b284406e0a70e1545063dint,
        0x2b950d5be3706e376d42c898f27572a17fdfd1ebe6569eb60d78d8be17aeaa0fint,
        0x2aa88bb4f9b533f7c13268a31d3bc982f68522de683269c4dad4ab038e7d2ccdint,
        0x2275998afd82caabff8a277b5a118f6b77f39da51057d16df973250be3e76d22int,
        0x110b595a4543b744f8bb6c3b01269053586563ba5605d377362d94a036c092e4int,
        0xc7741876990818f1c8f3f6f5062defebbc25802de8e31c25fc0a5286ecfc8c0int,
        0x867f9067a568f9b3582eeb978ce9f82e11a14fcbc94940160f58089c7dd4bacint,
        0x26442ede40817b666a0782fd0dc2622225449d6aa8358782f706792ca59021aeint,
    );
}

proof fn lemma_cube_g2_2()
    requires
        pow(60516, 0x10216f7ba065e00de81ac1e7808072c9nat) % 0x30644e72e131a029b85045b68181585d97816a916871ca8d3c208c16d87cfd47int == 0x26442ede40817b666a0782fd0dc2622225449d6aa8358782f706792ca59021aeint,
    ensures
        pow(60516, 0x10216f7ba065e00de81ac1e7808072c9dd2b2385cd7b4384nat) % 0x30644e72e131a029b85045b68181585d97816a916871ca8d3c208c16d87cfd47int == 0x1e1089c186ab79b6f520771cb879dcb238305f02dbb4e21766749b09e90c111dint,
{
    reveal(bit_step);
    lemma_byte(
        0x30644e72e131a029b85045b68181585d97816a916871ca8d3c208c16d87cfd47int, 60516,
        0x10216f7ba065e00de81ac1e7808072c9nat, 13, 13,
        0x26442ede40817b666a0782fd0dc2622225449d6aa8358782f706792ca59021aeint,
        0x2ef536d6a3c6ddea4afb0441be6605fc46e0781a188eb92972bb07a0b16adee0int,
        0x2db8d7974303980b22ebfe86c91d452fbeee7f6778117cd7bc19fe9eea15022eint,
        0x14b95575aecec5226f5c385e08fa0c34795142a4735fa39f8e5ac5faae018a86int,
        0x1fdb2ef88f6ea6f4c43d11d6e4dcfd81ceb6ea1614d8a6b2fe396edaccaf1ecint,
        0x30217d76c38e2eb1e8346828dc8a433a25de44d045275c7968ba347ec92f41abint,
        0x1b53c70b9fce655e5d42d07bdaaaae0e17ef4ea643051b5e5a21546018c5d0f4int,
        0x2384cae19ccdad020e9557d3208103703f220d5374e5f1e3b86dde48ed312609int,
        0x1d857cfcd50f8d3a8cd15ce0a04b40238b63a964ea30b04f3888559b76505d22int,
    );
    lemma_byte(
        0x30644e72e131a029b85045b68181585d97816a916871ca8d3c208c16d87cfd47int, 60516,
        0x10216f7ba065e00de81ac1e7808072c9ddnat, 2, 11,
        0x1d857cfcd50f8d3a8cd15ce0a04b40238b63a964ea30b04f3888559b76505d22int,
        0x17aed1189095df914b114d2460120c660f9672f5a718c9f597079b5909ae6aabint,
        0x75c1bbd7d0b4e0126b01a63da07c505ac205b89c5a840e1fd15d1ff0bcdf288int,
        0x26d2bd74f2d547854b18575abbb956217b720c67c263d68a0c8b841057d469deint,
        0x23e64a77c1ea3ee57d37538e68d66daddd30a8b17892cd7605efaca4fde5ff98int,
        0xa7321d8513d62d5e3a203894362d4fb3704444269fc4bd32ceaa81930fa023int,
        0x2702c3c3664af03012960ad6392d6d5da82a69575ba35092975816fd3075679aint,
        0x92f35fd505b89c417f8b4ff4b5afa76d9cbdadd2114f41c309b23e8a45e4e9fint,
        0x139048d561be594489b3240f0c2f14fe294096a33837f13295e8e4c8df2927b2int,
    );
    lemma_byte(
        0x30644e72e131a029b85045b68181585d97816a916871ca8d3c208c16d87cfd47int, 60516,
        0x10216f7ba065e00de81ac1e7808072c9dd2bnat, 2, 3,
        0x139048d561be594489b3240f0c2f14fe294096a33837f13295e8e4c8df2927b2int,
        0x13519bdf6c097bc390a252ed4c403d40c8215359c5a7764dd705399c206d448int,
        0x201bf613187a6e32021e401ae71d16bd010f01ced88b803d9329c14cbe6e2ea6int,
        0x17d6d957d9380cebb7f1ba9f3cea7d023795151e811732a3023f24737246b6bbint,
        0x3009ed18e0115f90dadffd91f97a275e5cc60572847eb1dea76d66ea2b56a621int,
        0x140d7d4ccbba2deafeeef500a0c66fb6e14e60e5506d943f79d8a3264e37a78fint,
        0x2bbe13b4bde53a0ad82f4ba2c869454a064e4e71eeabcd2cb01168fedebcf8e8int,
        0x16f9d943ce69ee95997bcdec6f81baba5fe50c325c52501a007ce46f31591219int,
        0x1b4d31683ccb453de1345040187f3aab658b8fddd7f83cf0e349439495d5979eint,
    );
    lemma_byte(
        0x30644e72e131a029b85045b68181585d97816a916871ca8d3c208c16d87cfd47int, 60516,
        0x10216f7ba065e00de81ac1e7808072c9dd2b23nat, 8, 5,
        0x1b4d31683ccb453de1345040187f3aab658b8fddd7f83cf0e349439495d5979eint,
        0x273bdd73d331c4700cbb2b3357436f4f55425690466235fa99cede516e7ebf5aint,
        0x67aba12409eecc33dfae47cdeb2555778c5673a4b538045b6c0b08a1fc3a7bfint,
        0x2961c522f9bb8ffdae48027b376e74b1981c30e513f5712550b697887ff86ce0int,
        0x12561d15463247cb80c137bd348a1a5da95fc2cbd1d135ef0da4c005d255d159int,
        0x1d7190ab15340ff4c852f9a3787abcce1e550fa21c67170c6708b538b3d3827aint,
        0x12626e47257312747929bb164010dfed2e48fbd6559a0a6ffee4480ca01a16a2int,
        0x2be54ca386548c59b3423788248a2532e8358bae15deb26fbbb8c2928d090005int,
        0x10caa0c694c440f2b51ba7d9761a46abbf0bc8eb738ea262d2f1108eeb72c765int,
    );
    lemma_byte(
        0x30644e72e131a029b85045b68181585d97816a916871ca8d3c208c16d87cfd47int, 60516,
        0x10216f7ba065e00de81ac1e7808072c9dd2b2385nat, 12, 13,
        0x10caa0c694c440f2b51ba7d9761a46abbf0bc8eb738ea262d2f1108eeb72c765int,
        0x157d24495e90e69c252b20ca661e83d4005443d968da264517bddc51e23642c8int,
        0x1ec7e7895def65e08f964b989689cb2a3c9d2876f753f22d1a53e592c73345fbint,
        0xee626cd109b42d9fe4c3f4bce84859689a16917805b36e1d2593225a639d37cint,
        0x918f24e70bdb1e47fe3c6a73e52398df7664c09c1784c092ee095ae006d1035int,
        0xea7a0000e8beaf6ca232f985a118eed78c67a33347cb66c9388fdce60010596int,
        0x13a1f6016f2f0f27986571abadd449280e5e1451f3ebc0eecb28efadcf6e0e2int,
        0x1e2e0fe96325770b7c37c476f3eb78b4a022e16c12e4abb5bc480069e692d1f1int,
        0x83c838287d121bb7bb61b88f82bf0caf1bc0575a6c4b89eb0d8ac83be170d52int,
    );
    lemma_byte(
        0x30644e72e131a029b85045b68181585d97816a916871ca8d3c208c16d87cfd47int, 60516,
        0x10216f7ba065e00de81ac1e7808072c9dd2b2385cdnat, 7, 11,
        0x83c838287d121bb7bb61b88f82bf0caf1bc0575a6c4b89eb0d8ac83be170d52int,
        0xd071fef4c6ed02c521274c9bb813aecdb260696bd29c587981a3d962bc362c3int,
        0x1347c2f895d582958b99d21261c16047b6f5f516cafd9d4342631a8e9e5e64fdint,
        0x14dbf2bebd089ab08139791db662f5c4d4d5aa0008c3dc7c4bd5af55df3cc3b9int,
        0x6c33817716afec7cf694c239cc5da69bf49685a7b5424ba8cf8a52e4b270e13int,
        0xf43e04f3852cad54b78a8a88c9fa42df28cd2a1ccf4aea3a5807cd2cb6406a3int,
        0x84ae624128b2b159f08d8ba60ae6f3d0303e9ce9fbec4e3ecd0effa9eb7d9a7int,
        0x51a2e06ebfb70052c68fb70436c5caa237abccb4435b0e0e82f5cd8cffdc6e0int,
        0x2a55e98cab225cd2231b8eb40634b8917f4bec7d7ee199b10e10441558de43c9int,
    );
    lemma_byte(
        0x30644e72e131a029b85045b68181585d97816a916871ca8d3c208c16d87cfd47int, 60516,
        0x10216f7ba065e00de81ac1e7808072c9dd2b2385cd7bnat, 4, 3,
        0x2a55e98cab225cd2231b8eb40634b8917f4bec7d7ee199b10e10441558de43c9int,
        0x23a0aa6bbf0d10c53d1196395a2f5ee583a3762154501fdd477bc9c99c4eaac7int,
        0x7d01141d6b236e1121e71e86c912343a5b78c948708a55035a2af2774722a7cint,
        0x15927ceb2a2adb7dc14b40138a1bf31254d39c04e90053224cae1b57c85200b3int,
        0xe223dff1c1e9e86ade48ea86308684feac63dd4063e8b12bd49fe396b208182int,
        0xdafd660f9b65c1ec0e47c9177ec8c4489f5708086e6785ada3b5bd7e22cc4e7int,
        0x153111167e0dcacf496222bc7e727bbf069125fa8094ef114e294ff250642219int,
        0x184308d69c34611ae56688dee01aede6cdde379ad7fe86f932dd3b7678fe5877int,
        0x1a8cec20f0d7ac5f711a536340ad11ecb419c3568b6b0ad520a43ffdf9bba32cint,
    );
    lemma_byte(
        0x30644e72e131a029b85045b68181585d97816a916871ca8d3c208c16d87cfd47int, 60516,
        0x10216f7ba065e00de81ac1e7808072c9dd2b2385cd7b43nat, 8, 4,
        0x1a8cec20f0d7ac5f711a536340ad11ecb419c3568b6b0ad520a43ffdf9bba32cint,
        0x225d4edfb4b2bdd55aac202e7eeca575a3c101ba6f054cd25e194901453a0a76int,
        0x277af44c2aea8262bff2d675cdea7702cb38b936559a894757bdf437211401a7int,
        0x10ab138e29da8d6c382301cf74924ba0a4373d3f6ca0cc0c08eef85893cd841cint,
        0x2bb4222257e1addbd15cc88308940da4315fc0567da0e2857a5c982f3ad6154aint,
        0x2b7c2b572fcf306fda66e48fa5af5b814a4853b54b800aac059c2c081322d50int,
        0xc3227d7deab7c00c6a97bc4b3d6a24eb7f1d3894571278e901d71d83fe3ef97int,
        0x7f204ac88b90fe58cc674d846e714e0f415c66daa6c3cc805f7304ffd193e22int,
        0x1e1089c186ab79b6f520771cb879dcb238305f02dbb4e21766749b09e90c111dint,
    );
}

proof fn lemma_cube_g2_3()
    requires
        pow(60516, 0x10216f7ba065e00de81ac1e7808072c9dd2b2385cd7b4384nat) % 0x30644e72e131a029b85045b68181585d97816a916871ca8d3c208c16d87cfd47int == 0x1e1089c186ab79b6f520771cb879dcb238305f02dbb4e21766749b09e90c111dint,
    ensures
        pow(60516, 0x10216f7ba065e00de81ac1e7808072c9dd2b2385cd7b438469602eb24829a9c2nat) % 0x30644e72e131a029b85045b68181585d97816a916871ca8d3c208c16d87cfd47int == 0x30644e72e131a0295e6dd9e7e0acccb0c28f069fbb966e3de4bd44e5607cfd48int,
{
    reveal(bit_step);
    lemma_byte(
        0x30644e72e131a029b85045b68181585d97816a916871ca8d3c208c16d87cfd47int, 60516,
        0x10216f7ba065e00de81ac1e7808072c9dd2b2385cd7b4384nat, 6, 9,
        0x1e1089c186ab79b6f520771cb879dcb238305f02dbb4e21766749b09e90c111dint,
        0x8ebfb68e5ba307321b6d82d345f8d92801682f271b380febd2919940f8d2c62int,
        0x1d79e3d0384f5cf33619a68adb505c9d9cdd597d5e85e830e6d05bc316af55c4int,
        0x2a93bf82cde1ac2fe59e0dc02d0052fe26189f082ea131c7cde9033131a48580int,
        0x7b38a5ebe59178c365246c2ab6592e439d71ecba8d5faeee5bf1a06bd7b1d38int,
        0x1e42e062272eeedc9a5f64fc36ae8da12923caee7a413dab810388bfe38e3d42int,
        0x9234ff5fa52b067f7021588058e518e5cebccadc5b4394bfa15050d94b5e9b7int,
        0x7071360d496f9816af32564cfbceecb5eaaaacda8d6d4efba06940330107ee8int,
        0x187c65e076de65c2155571076a2380d6ae210135dd4b4fa08b0f735593fc0d9bint,
    );
    lemma_byte(
        0x30644e72e131a029b85045b68181585d97816a916871ca8d3c208c16d87cfd47int, 60516,
        0x10216f7ba065e00de81ac1e7808072c9dd2b2385cd7b438469nat, 6, 0,
        0x187c65e076de65c2155571076a2380d6ae210135dd4b4fa08b0f735593fc0d9bint,
        0x20001206abd12bb2da77656f35dbf586c1e8e1530fe90655f70e838f47344758int,
        0x2828322a5fc614b8238bf4e21164ee7fc3216a7d8d44438d4c767992c0bd4d5int,
        0x12d4cbc441a852956b276ff813d971324481f0b5202318f337388952404d6f16int,
        0xba07ebac216249f7503d1d8cbe5c061bb0dd42d6c3aabe8efb4391a2b589c4cint,
        0x1537e3f7b27ff138a89a9a96b71fc23cbbc8bb008dd5c0403e2b08c0ab622ea5int,
        0x8158a013b3b7e56695684cf63c535f5a7369ad2ed7fe2b6db8bb5fe52c2c41int,
        0x2706920af62b02ab51c0726dec4e7a749412cd9c21e39e20e40e1d2a8fdf03b4int,
        0x2ce310482c24bf792a1f6c6a4aab1803f4f922fe7e954efc1654b402c9bdef45int,
    );
    lemma_byte(
        0x30644e72e131a029b85045b68181585d97816a916871ca8d3c208c16d87cfd47int, 60516,
        0x10216f7ba065e00de81ac1e7808072c9dd2b2385cd7b43846960nat, 2, 14,
        0x2ce310482c24bf792a1f6c6a4aab1803f4f922fe7e954efc1654b402c9bdef45int,
        0x168bb2d16ba04c88290d4155ea439f4687a3fd65d234089c1c3fd24328d3209eint,
        0x1c3eabb94a29c7c650ae893249d476b528d3e4172a42cf67eb8d6014b2c57befint,
        0xb0bbb580a2b11574de3644decd2bae111611a9a47b226074d05f1d0093bc772int,
        0x18b9577b0c66ee129a48f9641927d68ad891bee83250790be329507633cb07ddint,
        0x1dea67bb3a5582cdf38e7202291bd80ce2e3463b4866cd410bdaa2635afd561fint,
        0x1e2ad4d9daef532b1a87beb51d2cb2c7fc6aa31981a08d51149fe4cd34c37d71int,
        0x1204f11ebb04a354db11d7fda53a759f4169b0f6a3d80aaa7ca9a8cfa63f481dint,
        0x13cce61408dd21ef901bb1883a56f8d4addd7a7517bdecb5af19f86f27104963int,
    );
    lemma_byte(
        0x30644e72e131a029b85045b68181585d97816a916871ca8d3c208c16d87cfd47int, 60516,
        0x10216f7ba065e00de81ac1e7808072c9dd2b2385cd7b438469602enat, 11, 2,
        0x13cce61408dd21ef901bb1883a56f8d4addd7a7517bdecb5af19f86f27104963int,
        0x563a9ede510ab1c196b5a649a7320c734997e7f167399a5d3f804ef77c26469int,
        0x1cc365697477fc26850e32796fa38dda6dce74b66d1050e3884818e779973cc4int,
        0xcd1dac6e47b4480915bee15dee72551c7a3416d6cf43f3238aceef51fd50801int,
        0x1de3c4552b6e857aae7a1815eb63a8f378df8d081b53967d841c0eccd8771a12int,
        0x1599ba94fcb5fac50bfb9c044ca5c0ec4353a9cfad5c8235a0a1f2a48f1707f6int,
        0xcae873b21e2aa5f4948a7d97015c0b04364c8df50a5ef23eddaae38a9db1e63int,
        0x200d040cae0ec8b65b97ae7e6da838503c7a78d33fa61c6556a3e096370962b7int,
        0x11a39eea0f2048379fc77732e97c250e87d734a5a96f30b028033c999b0e01a8int,
    );
    lemma_byte(
        0x30644e72e131a029b85045b68181585d97816a916871ca8d3c208c16d87cfd47int, 60516,
        0x10216f7ba065e00de81ac1e7808072c9dd2b2385cd7b438469602eb2nat, 4, 8,
        0x11a39eea0f2048379fc77732e97c250e87d734a5a96f30b028033c999b0e01a8int,
        0x2e2bae42e62c346c1af42a394b791943598b303e52f66935a079417d22647076int,
        0x229deebb4f9d3476566ef89e8b40b0453d6faf82dba0bb5129c3581f1a7a7eaeint,
        0xe8632111fb5354b509ee1511b6c938979168bc947f1d69329d919c1ac98fbfcint,
        0x17ce1ed888e3aa233264d0592087ecc62963a63c8896d0416957b1a7e1a59fdeint,
        0x248b88d9b750eaab595014236e5a0bd9368fc3b27a4bebd38469ebd99652b04eint,
        0x660e1a1b1ed6932e4a946917fc69899d5e1981bc759703c3da01f1e8568152aint,
        0x1a8b79aa51c4a93ae12cd5b1e2407e32d812dd09dc82605fb2996653739cdbb9int,
        0xbcc0806c77bf7383c6831c7f678262c3cdd5d37f62483d4ebe77e53d8c4bc4int,
    );
    lemma_byte(
        0x30644e72e131a029b85045b68181585d97816a916871ca8d3c208c16d87cfd47int, 60516,
        0x10216f7ba065e00de81ac1e7808072c9dd2b2385cd7b438469602eb248nat, 2, 9,
        0xbcc0806c77bf7383c6831c7f678262c3cdd5d37f62483d4ebe77e53d8c4bc4int,
        0x230091c860ac459c472dc11e01b0d62d34ee15516f80243d1d2960632c9dcbe6int,
        0xcc3432dc2cbbe96008fa42978a84c19bede5db3c9d6c9520c19d72544d2a52bint,
        0x282c03f7f657b0e0617a00030f2de7e99f082b78cf7ff4fdfbbbd9c884f6f535int,
        0x2f02696cfc7059d2f618f552a65027efed08e65bc9aae2dfbc87858e348117a6int,
        0x2b50d91aded297d3931ff491072cfedde4227799ade87107c6bde21a2535eaf1int,
        0xe34a737fd155ff0249f189dcd25c9dc2c2f74b15f90e12cc338b5194e33306cint,
        0xa5fa682fd8646855837bd9623616ea7b207cb9eba2273b3645a599d052a34aeint,
        0xd5a7ea8edd1cbffca2cb1c44386338668cd563cd361196cc95064d9ad569365int,
    );
    lemma_byte(
        0x30644e72e131a029b85045b68181585d97816a916871ca8d3c208c16d87cfd47int, 60516,
        0x10216f7ba065e00de81ac1e7808072c9dd2b2385cd7b438469602eb24829nat, 10, 9,
        0xd5a7ea8edd1cbffca2cb1c44386338668cd563cd361196cc95064d9ad569365int,
        0x1fadbf03ed81d3b2922de26470e99f8baebab97b4b4aea275a7880a33f68aaf0int,
        0x80dbc37e8036c55022dbe108bb65762345736adae9723649b6119581aa45fb1int,
        0x2c1f7b0aab7b0e2f9d8adfcd74f049d85d003469f99b89c91c5bc5f3f26cdd56int,
        0x2129fcb847d8efa17fae53d68a8d2e8afbc752673f99986b21db9f5c93733971int,
        0x1d8f2da4734b9d416b8707c339145386ed499d4c27ac9236a820de8e97f5403bint,
        0x538a8231772417675e3d467bf12f0dac84d135edeaeac4aacd2a6feaec7a01int,
        0x28b35f4dec1da819d342f1b865d151cf891a6f80e161684cfb98713acba778a1int,
        0x2a23456d8e52a7f5bf9d8c90aa4207c18628bf8bbdc9924a5af75e4a12e8db6cint,
    );
    lemma_byte(
        0x30644e72e131a029b85045b68181585d97816a916871ca8d3c208c16d87cfd47int, 60516,
        0x10216f7ba065e00de81ac1e7808072c9dd2b2385cd7b438469602eb24829a9nat, 12, 2,
        0x2a23456d8e52a7f5bf9d8c90aa4207c18628bf8bbdc9924a5af75e4a12e8db6cint,
        0x9881ce9b3b5afb40a1c49b815ce74ddba672b462d14229e1bd95f9cc20a7395int,
        0xa9554d5f1a55986e7f469e5353beb9bce66f7f24431dc55b55859286f82dc3aint,
        0x2b567f8302fea079018925e4c4cf76dcd5b774782663a3639014d3f5e386a0aaint,
        0xb9ce98f58a5c5711742a1e13a98a4b85bb5024db5143f06fb64a98bbcd9931fint,
        0x2a3918853020761d556292b313b536150b5b8a12dfe862803b54ceff6c86207cint,
        0x26c0b789c926b340a0c3867a6b37e355b1b29ed2294fd3c831e06cc6206417d6int,
        0x59e26bcea0d48bacd4f263f1acdb5c4f5763473177fffffeint,
        0x30644e72e131a0295e6dd9e7e0acccb0c28f069fbb966e3de4bd44e5607cfd48int,
    );
}

/// A power of 60516.
proof fn lemma_cube_g2()
    ensures
        pow(60516, 0x10216f7ba065e00de81ac1e7808072c9dd2b2385cd7b438469602eb24829a9c2nat) % 0x30644e72e131a029b85045b68181585d97816a916871ca8d3c208c16d87cfd47int == 0x30644e72e131a0295e6dd9e7e0acccb0c28f069fbb966e3de4bd44e5607cfd48int,
{
    lemma_pow0(60516);
    lemma_cube_g2_0();
    lemma_cube_g2_1();
    lemma_cube_g2_2();
    lemma_cube_g2_3();
}

/// 3 is no cube: a third of the order of the units does not take it to one.
pub proof fn lemma_g1_constant()
    ensures
        pow(3, ((q() - 1) / 3) as nat) % (q() as int) != 1,
{
    lemma_cube_g1();
}

/// 60516, which is the norm `9 / 82` of the constant of the G2 curve times the cube of 82, is
/// no cube.
pub proof fn lemma_g2_constant()
    ensures
        pow(60516, ((q() - 1) / 3) as nat) % (q() as int) != 1,
{
    lemma_cube_g2();
}

} // verus!
