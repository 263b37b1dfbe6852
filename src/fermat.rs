//! Fermat's little theorem for 257, checked residue by residue.
use crate::arith::{finv, fmul, lemma_zpow_double, sq, zpow};
use vstd::arithmetic::div_mod::lemma_small_mod;
use vstd::prelude::*;

verus! {

spec fn pow256_by_squaring(a: int) -> int {
    sq(sq(sq(sq(sq(sq(sq(sq(a))))))))
}

proof fn lemma_pow256_range_0(a: int)
    requires
        1 <= a < 16,
    ensures
        pow256_by_squaring(a) == 1,
{
    if a == 1 {
        assert(sq(1) == 1);
    } else if a == 2 {
        assert(sq(2) == 4);
        assert(sq(4) == 16);
        assert(sq(16) == 256);
        assert(sq(256) == 1);
    } else if a == 3 {
        assert(sq(3) == 9);
        assert(sq(9) == 81);
        assert(sq(81) == 136);
        assert(sq(136) == 249);
        assert(sq(249) == 64);
        assert(sq(64) == 241);
        assert(sq(241) == 256);
        assert(sq(256) == 1);
    } else if a == 4 {
        assert(sq(4) == 16);
        assert(sq(16) == 256);
        assert(sq(256) == 1);
    } else if a == 5 {
        assert(sq(5) == 25);
        assert(sq(25) == 111);
        assert(sq(111) == 242);
        assert(sq(242) == 225);
        assert(sq(225) == 253);
        assert(sq(253) == 16);
        assert(sq(16) == 256);
        assert(sq(256) == 1);
    } else if a == 6 {
        assert(sq(6) == 36);
        assert(sq(36) == 11);
        assert(sq(11) == 121);
        assert(sq(121) == 249);
        assert(sq(249) == 64);
        assert(sq(64) == 241);
        assert(sq(241) == 256);
        assert(sq(256) == 1);
    } else if a == 7 {
        assert(sq(7) == 49);
        assert(sq(49) == 88);
        assert(sq(88) == 34);
        assert(sq(34) == 128);
        assert(sq(128) == 193);
        assert(sq(193) == 241);
        assert(sq(241) == 256);
        assert(sq(256) == 1);
    } else if a == 8 {
        assert(sq(8) == 64);
        assert(sq(64) == 241);
        assert(sq(241) == 256);
        assert(sq(256) == 1);
    } else if a == 9 {
        assert(sq(9) == 81);
        assert(sq(81) == 136);
        assert(sq(136) == 249);
        assert(sq(249) == 64);
        assert(sq(64) == 241);
        assert(sq(241) == 256);
        assert(sq(256) == 1);
    } else if a == 10 {
        assert(sq(10) == 100);
        assert(sq(100) == 234);
        assert(sq(234) == 15);
        assert(sq(15) == 225);
        assert(sq(225) == 253);
        assert(sq(253) == 16);
        assert(sq(16) == 256);
        assert(sq(256) == 1);
    } else if a == 11 {
        assert(sq(11) == 121);
        assert(sq(121) == 249);
        assert(sq(249) == 64);
        assert(sq(64) == 241);
        assert(sq(241) == 256);
        assert(sq(256) == 1);
    } else if a == 12 {
        assert(sq(12) == 144);
        assert(sq(144) == 176);
        assert(sq(176) == 136);
        assert(sq(136) == 249);
        assert(sq(249) == 64);
        assert(sq(64) == 241);
        assert(sq(241) == 256);
        assert(sq(256) == 1);
    } else if a == 13 {
        assert(sq(13) == 169);
        assert(sq(169) == 34);
        assert(sq(34) == 128);
        assert(sq(128) == 193);
        assert(sq(193) == 241);
        assert(sq(241) == 256);
        assert(sq(256) == 1);
    } else if a == 14 {
        assert(sq(14) == 196);
        assert(sq(196) == 123);
        assert(sq(123) == 223);
        assert(sq(223) == 128);
        assert(sq(128) == 193);
        assert(sq(193) == 241);
        assert(sq(241) == 256);
        assert(sq(256) == 1);
    } else if a == 15 {
        assert(sq(15) == 225);
        assert(sq(225) == 253);
        assert(sq(253) == 16);
        assert(sq(16) == 256);
        assert(sq(256) == 1);
    }
}

proof fn lemma_pow256_range_1(a: int)
    requires
        16 <= a < 32,
    ensures
        pow256_by_squaring(a) == 1,
{
    if a == 16 {
        assert(sq(16) == 256);
        assert(sq(256) == 1);
    } else if a == 17 {
        assert(sq(17) == 32);
        assert(sq(32) == 253);
        assert(sq(253) == 16);
        assert(sq(16) == 256);
        assert(sq(256) == 1);
    } else if a == 18 {
        assert(sq(18) == 67);
        assert(sq(67) == 120);
        assert(sq(120) == 8);
        assert(sq(8) == 64);
        assert(sq(64) == 241);
        assert(sq(241) == 256);
        assert(sq(256) == 1);
    } else if a == 19 {
        assert(sq(19) == 104);
        assert(sq(104) == 22);
        assert(sq(22) == 227);
        assert(sq(227) == 129);
        assert(sq(129) == 193);
        assert(sq(193) == 241);
        assert(sq(241) == 256);
        assert(sq(256) == 1);
    } else if a == 20 {
        assert(sq(20) == 143);
        assert(sq(143) == 146);
        assert(sq(146) == 242);
        assert(sq(242) == 225);
        assert(sq(225) == 253);
        assert(sq(253) == 16);
        assert(sq(16) == 256);
        assert(sq(256) == 1);
    } else if a == 21 {
        assert(sq(21) == 184);
        assert(sq(184) == 189);
        assert(sq(189) == 255);
        assert(sq(255) == 4);
        assert(sq(4) == 16);
        assert(sq(16) == 256);
        assert(sq(256) == 1);
    } else if a == 22 {
        assert(sq(22) == 227);
        assert(sq(227) == 129);
        assert(sq(129) == 193);
        assert(sq(193) == 241);
        assert(sq(241) == 256);
        assert(sq(256) == 1);
    } else if a == 23 {
        assert(sq(23) == 15);
        assert(sq(15) == 225);
        assert(sq(225) == 253);
        assert(sq(253) == 16);
        assert(sq(16) == 256);
        assert(sq(256) == 1);
    } else if a == 24 {
        assert(sq(24) == 62);
        assert(sq(62) == 246);
        assert(sq(246) == 121);
        assert(sq(121) == 249);
        assert(sq(249) == 64);
        assert(sq(64) == 241);
        assert(sq(241) == 256);
        assert(sq(256) == 1);
    } else if a == 25 {
        assert(sq(25) == 111);
        assert(sq(111) == 242);
        assert(sq(242) == 225);
        assert(sq(225) == 253);
        assert(sq(253) == 16);
        assert(sq(16) == 256);
        assert(sq(256) == 1);
    } else if a == 26 {
        assert(sq(26) == 162);
        assert(sq(162) == 30);
        assert(sq(30) == 129);
        assert(sq(129) == 193);
        assert(sq(193) == 241);
        assert(sq(241) == 256);
        assert(sq(256) == 1);
    } else if a == 27 {
        assert(sq(27) == 215);
        assert(sq(215) == 222);
        assert(sq(222) == 197);
        assert(sq(197) == 2);
        assert(sq(2) == 4);
        assert(sq(4) == 16);
        assert(sq(16) == 256);
        assert(sq(256) == 1);
    } else if a == 28 {
        assert(sq(28) == 13);
        assert(sq(13) == 169);
        assert(sq(169) == 34);
        assert(sq(34) == 128);
        assert(sq(128) == 193);
        assert(sq(193) == 241);
        assert(sq(241) == 256);
        assert(sq(256) == 1);
    } else if a == 29 {
        assert(sq(29) == 70);
        assert(sq(70) == 17);
        assert(sq(17) == 32);
        assert(sq(32) == 253);
        assert(sq(253) == 16);
        assert(sq(16) == 256);
        assert(sq(256) == 1);
    } else if a == 30 {
        assert(sq(30) == 129);
        assert(sq(129) == 193);
        assert(sq(193) == 241);
        assert(sq(241) == 256);
        assert(sq(256) == 1);
    } else if a == 31 {
        assert(sq(31) == 190);
        assert(sq(190) == 120);
        assert(sq(120) == 8);
        assert(sq(8) == 64);
        assert(sq(64) == 241);
        assert(sq(241) == 256);
        assert(sq(256) == 1);
    }
}

proof fn lemma_pow256_range_2(a: int)
    requires
        32 <= a < 48,
    ensures
        pow256_by_squaring(a) == 1,
{
    if a == 32 {
        assert(sq(32) == 253);
        assert(sq(253) == 16);
        assert(sq(16) == 256);
        assert(sq(256) == 1);
    } else if a == 33 {
        assert(sq(33) == 61);
        assert(sq(61) == 123);
        assert(sq(123) == 223);
        assert(sq(223) == 128);
        assert(sq(128) == 193);
        assert(sq(193) == 241);
        assert(sq(241) == 256);
        assert(sq(256) == 1);
    } else if a == 34 {
        assert(sq(34) == 128);
        assert(sq(128) == 193);
        assert(sq(193) == 241);
        assert(sq(241) == 256);
        assert(sq(256) == 1);
    } else if a == 35 {
        assert(sq(35) == 197);
        assert(sq(197) == 2);
        assert(sq(2) == 4);
        assert(sq(4) == 16);
        assert(sq(16) == 256);
        assert(sq(256) == 1);
    } else if a == 36 {
        assert(sq(36) == 11);
        assert(sq(11) == 121);
        assert(sq(121) == 249);
        assert(sq(249) == 64);
        assert(sq(64) == 241);
        assert(sq(241) == 256);
        assert(sq(256) == 1);
    } else if a == 37 {
        assert(sq(37) == 84);
        assert(sq(84) == 117);
        assert(sq(117) == 68);
        assert(sq(68) == 255);
        assert(sq(255) == 4);
        assert(sq(4) == 16);
        assert(sq(16) == 256);
        assert(sq(256) == 1);
    } else if a == 38 {
        assert(sq(38) == 159);
        assert(sq(159) == 95);
        assert(sq(95) == 30);
        assert(sq(30) == 129);
        assert(sq(129) == 193);
        assert(sq(193) == 241);
        assert(sq(241) == 256);
        assert(sq(256) == 1);
    } else if a == 39 {
        assert(sq(39) == 236);
        assert(sq(236) == 184);
        assert(sq(184) == 189);
        assert(sq(189) == 255);
        assert(sq(255) == 4);
        assert(sq(4) == 16);
        assert(sq(16) == 256);
        assert(sq(256) == 1);
    } else if a == 40 {
        assert(sq(40) == 58);
        assert(sq(58) == 23);
        assert(sq(23) == 15);
        assert(sq(15) == 225);
        assert(sq(225) == 253);
        assert(sq(253) == 16);
        assert(sq(16) == 256);
        assert(sq(256) == 1);
    } else if a == 41 {
        assert(sq(41) == 139);
        assert(sq(139) == 46);
        assert(sq(46) == 60);
        assert(sq(60) == 2);
        assert(sq(2) == 4);
        assert(sq(4) == 16);
        assert(sq(16) == 256);
        assert(sq(256) == 1);
    } else if a == 42 {
        assert(sq(42) == 222);
        assert(sq(222) == 197);
        assert(sq(197) == 2);
        assert(sq(2) == 4);
        assert(sq(4) == 16);
        assert(sq(16) == 256);
        assert(sq(256) == 1);
    } else if a == 43 {
        assert(sq(43) == 50);
        assert(sq(50) == 187);
        assert(sq(187) == 17);
        assert(sq(17) == 32);
        assert(sq(32) == 253);
        assert(sq(253) == 16);
        assert(sq(16) == 256);
        assert(sq(256) == 1);
    } else if a == 44 {
        assert(sq(44) == 137);
        assert(sq(137) == 8);
        assert(sq(8) == 64);
        assert(sq(64) == 241);
        assert(sq(241) == 256);
        assert(sq(256) == 1);
    } else if a == 45 {
        assert(sq(45) == 226);
        assert(sq(226) == 190);
        assert(sq(190) == 120);
        assert(sq(120) == 8);
        assert(sq(8) == 64);
        assert(sq(64) == 241);
        assert(sq(241) == 256);
        assert(sq(256) == 1);
    } else if a == 46 {
        assert(sq(46) == 60);
        assert(sq(60) == 2);
        assert(sq(2) == 4);
        assert(sq(4) == 16);
        assert(sq(16) == 256);
        assert(sq(256) == 1);
    } else if a == 47 {
        assert(sq(47) == 153);
        assert(sq(153) == 22);
        assert(sq(22) == 227);
        assert(sq(227) == 129);
        assert(sq(129) == 193);
        assert(sq(193) == 241);
        assert(sq(241) == 256);
        assert(sq(256) == 1);
    }
}

proof fn lemma_pow256_range_3(a: int)
    requires
        48 <= a < 64,
    ensures
        pow256_by_squaring(a) == 1,
{
    if a == 48 {
        assert(sq(48) == 248);
        assert(sq(248) == 81);
        assert(sq(81) == 136);
        assert(sq(136) == 249);
        assert(sq(249) == 64);
        assert(sq(64) == 241);
        assert(sq(241) == 256);
        assert(sq(256) == 1);
    } else if a == 49 {
        assert(sq(49) == 88);
        assert(sq(88) == 34);
        assert(sq(34) == 128);
        assert(sq(128) == 193);
        assert(sq(193) == 241);
        assert(sq(241) == 256);
        assert(sq(256) == 1);
    } else if a == 50 {
        assert(sq(50) == 187);
        assert(sq(187) == 17);
        assert(sq(17) == 32);
        assert(sq(32) == 253);
        assert(sq(253) == 16);
        assert(sq(16) == 256);
        assert(sq(256) == 1);
    } else if a == 51 {
        assert(sq(51) == 31);
        assert(sq(31) == 190);
        assert(sq(190) == 120);
        assert(sq(120) == 8);
        assert(sq(8) == 64);
        assert(sq(64) == 241);
        assert(sq(241) == 256);
        assert(sq(256) == 1);
    } else if a == 52 {
        assert(sq(52) == 134);
        assert(sq(134) == 223);
        assert(sq(223) == 128);
        assert(sq(128) == 193);
        assert(sq(193) == 241);
        assert(sq(241) == 256);
        assert(sq(256) == 1);
    } else if a == 53 {
        assert(sq(53) == 239);
        assert(sq(239) == 67);
        assert(sq(67) == 120);
        assert(sq(120) == 8);
        assert(sq(8) == 64);
        assert(sq(64) == 241);
        assert(sq(241) == 256);
        assert(sq(256) == 1);
    } else if a == 54 {
        assert(sq(54) == 89);
        assert(sq(89) == 211);
        assert(sq(211) == 60);
        assert(sq(60) == 2);
        assert(sq(2) == 4);
        assert(sq(4) == 16);
        assert(sq(16) == 256);
        assert(sq(256) == 1);
    } else if a == 55 {
        assert(sq(55) == 198);
        assert(sq(198) == 140);
        assert(sq(140) == 68);
        assert(sq(68) == 255);
        assert(sq(255) == 4);
        assert(sq(4) == 16);
        assert(sq(16) == 256);
        assert(sq(256) == 1);
    } else if a == 56 {
        assert(sq(56) == 52);
        assert(sq(52) == 134);
        assert(sq(134) == 223);
        assert(sq(223) == 128);
        assert(sq(128) == 193);
        assert(sq(193) == 241);
        assert(sq(241) == 256);
        assert(sq(256) == 1);
    } else if a == 57 {
        assert(sq(57) == 165);
        assert(sq(165) == 240);
        assert(sq(240) == 32);
        assert(sq(32) == 253);
        assert(sq(253) == 16);
        assert(sq(16) == 256);
        assert(sq(256) == 1);
    } else if a == 58 {
        assert(sq(58) == 23);
        assert(sq(23) == 15);
        assert(sq(15) == 225);
        assert(sq(225) == 253);
        assert(sq(253) == 16);
        assert(sq(16) == 256);
        assert(sq(256) == 1);
    } else if a == 59 {
        assert(sq(59) == 140);
        assert(sq(140) == 68);
        assert(sq(68) == 255);
        assert(sq(255) == 4);
        assert(sq(4) == 16);
        assert(sq(16) == 256);
        assert(sq(256) == 1);
    } else if a == 60 {
        assert(sq(60) == 2);
        assert(sq(2) == 4);
        assert(sq(4) == 16);
        assert(sq(16) == 256);
        assert(sq(256) == 1);
    } else if a == 61 {
        assert(sq(61) == 123);
        assert(sq(123) == 223);
        assert(sq(223) == 128);
        assert(sq(128) == 193);
        assert(sq(193) == 241);
        assert(sq(241) == 256);
        assert(sq(256) == 1);
    } else if a == 62 {
        assert(sq(62) == 246);
        assert(sq(246) == 121);
        assert(sq(121) == 249);
        assert(sq(249) == 64);
        assert(sq(64) == 241);
        assert(sq(241) == 256);
        assert(sq(256) == 1);
    } else if a == 63 {
        assert(sq(63) == 114);
        assert(sq(114) == 146);
        assert(sq(146) == 242);
        assert(sq(242) == 225);
        assert(sq(225) == 253);
        assert(sq(253) == 16);
        assert(sq(16) == 256);
        assert(sq(256) == 1);
    }
}

proof fn lemma_pow256_range_4(a: int)
    requires
        64 <= a < 80,
    ensures
        pow256_by_squaring(a) == 1,
{
    if a == 64 {
        assert(sq(64) == 241);
        assert(sq(241) == 256);
        assert(sq(256) == 1);
    } else if a == 65 {
        assert(sq(65) == 113);
        assert(sq(113) == 176);
        assert(sq(176) == 136);
        assert(sq(136) == 249);
        assert(sq(249) == 64);
        assert(sq(64) == 241);
        assert(sq(241) == 256);
        assert(sq(256) == 1);
    } else if a == 66 {
        assert(sq(66) == 244);
        assert(sq(244) == 169);
        assert(sq(169) == 34);
        assert(sq(34) == 128);
        assert(sq(128) == 193);
        assert(sq(193) == 241);
        assert(sq(241) == 256);
        assert(sq(256) == 1);
    } else if a == 67 {
        assert(sq(67) == 120);
        assert(sq(120) == 8);
        assert(sq(8) == 64);
        assert(sq(64) == 241);
        assert(sq(241) == 256);
        assert(sq(256) == 1);
    } else if a == 68 {
        assert(sq(68) == 255);
        assert(sq(255) == 4);
        assert(sq(4) == 16);
        assert(sq(16) == 256);
        assert(sq(256) == 1);
    } else if a == 69 {
        assert(sq(69) == 135);
        assert(sq(135) == 235);
        assert(sq(235) == 227);
        assert(sq(227) == 129);
        assert(sq(129) == 193);
        assert(sq(193) == 241);
        assert(sq(241) == 256);
        assert(sq(256) == 1);
    } else if a == 70 {
        assert(sq(70) == 17);
        assert(sq(17) == 32);
        assert(sq(32) == 253);
        assert(sq(253) == 16);
        assert(sq(16) == 256);
        assert(sq(256) == 1);
    } else if a == 71 {
        assert(sq(71) == 158);
        assert(sq(158) == 35);
        assert(sq(35) == 197);
        assert(sq(197) == 2);
        assert(sq(2) == 4);
        assert(sq(4) == 16);
        assert(sq(16) == 256);
        assert(sq(256) == 1);
    } else if a == 72 {
        assert(sq(72) == 44);
        assert(sq(44) == 137);
        assert(sq(137) == 8);
        assert(sq(8) == 64);
        assert(sq(64) == 241);
        assert(sq(241) == 256);
        assert(sq(256) == 1);
    } else if a == 73 {
        assert(sq(73) == 189);
        assert(sq(189) == 255);
        assert(sq(255) == 4);
        assert(sq(4) == 16);
        assert(sq(16) == 256);
        assert(sq(256) == 1);
    } else if a == 74 {
        assert(sq(74) == 79);
        assert(sq(79) == 73);
        assert(sq(73) == 189);
        assert(sq(189) == 255);
        assert(sq(255) == 4);
        assert(sq(4) == 16);
        assert(sq(16) == 256);
        assert(sq(256) == 1);
    } else if a == 75 {
        assert(sq(75) == 228);
        assert(sq(228) == 70);
        assert(sq(70) == 17);
        assert(sq(17) == 32);
        assert(sq(32) == 253);
        assert(sq(253) == 16);
        assert(sq(16) == 256);
        assert(sq(256) == 1);
    } else if a == 76 {
        assert(sq(76) == 122);
        assert(sq(122) == 235);
        assert(sq(235) == 227);
        assert(sq(227) == 129);
        assert(sq(129) == 193);
        assert(sq(193) == 241);
        assert(sq(241) == 256);
        assert(sq(256) == 1);
    } else if a == 77 {
        assert(sq(77) == 18);
        assert(sq(18) == 67);
        assert(sq(67) == 120);
        assert(sq(120) == 8);
        assert(sq(8) == 64);
        assert(sq(64) == 241);
        assert(sq(241) == 256);
        assert(sq(256) == 1);
    } else if a == 78 {
        assert(sq(78) == 173);
        assert(sq(173) == 117);
        assert(sq(117) == 68);
        assert(sq(68) == 255);
        assert(sq(255) == 4);
        assert(sq(4) == 16);
        assert(sq(16) == 256);
        assert(sq(256) == 1);
    } else if a == 79 {
        assert(sq(79) == 73);
        assert(sq(73) == 189);
        assert(sq(189) == 255);
        assert(sq(255) == 4);
        assert(sq(4) == 16);
        assert(sq(16) == 256);
        assert(sq(256) == 1);
    }
}

proof fn lemma_pow256_range_5(a: int)
    requires
        80 <= a < 96,
    ensures
        pow256_by_squaring(a) == 1,
{
    if a == 80 {
        assert(sq(80) == 232);
        assert(sq(232) == 111);
        assert(sq(111) == 242);
        assert(sq(242) == 225);
        assert(sq(225) == 253);
        assert(sq(253) == 16);
        assert(sq(16) == 256);
        assert(sq(256) == 1);
    } else if a == 81 {
        assert(sq(81) == 136);
        assert(sq(136) == 249);
        assert(sq(249) == 64);
        assert(sq(64) == 241);
        assert(sq(241) == 256);
        assert(sq(256) == 1);
    } else if a == 82 {
        assert(sq(82) == 42);
        assert(sq(42) == 222);
        assert(sq(222) == 197);
        assert(sq(197) == 2);
        assert(sq(2) == 4);
        assert(sq(4) == 16);
        assert(sq(16) == 256);
        assert(sq(256) == 1);
    } else if a == 83 {
        assert(sq(83) == 207);
        assert(sq(207) == 187);
        assert(sq(187) == 17);
        assert(sq(17) == 32);
        assert(sq(32) == 253);
        assert(sq(253) == 16);
        assert(sq(16) == 256);
        assert(sq(256) == 1);
    } else if a == 84 {
        assert(sq(84) == 117);
        assert(sq(117) == 68);
        assert(sq(68) == 255);
        assert(sq(255) == 4);
        assert(sq(4) == 16);
        assert(sq(16) == 256);
        assert(sq(256) == 1);
    } else if a == 85 {
        assert(sq(85) == 29);
        assert(sq(29) == 70);
        assert(sq(70) == 17);
        assert(sq(17) == 32);
        assert(sq(32) == 253);
        assert(sq(253) == 16);
        assert(sq(16) == 256);
        assert(sq(256) == 1);
    } else if a == 86 {
        assert(sq(86) == 200);
        assert(sq(200) == 165);
        assert(sq(165) == 240);
        assert(sq(240) == 32);
        assert(sq(32) == 253);
        assert(sq(253) == 16);
        assert(sq(16) == 256);
        assert(sq(256) == 1);
    } else if a == 87 {
        assert(sq(87) == 116);
        assert(sq(116) == 92);
        assert(sq(92) == 240);
        assert(sq(240) == 32);
        assert(sq(32) == 253);
        assert(sq(253) == 16);
        assert(sq(16) == 256);
        assert(sq(256) == 1);
    } else if a == 88 {
        assert(sq(88) == 34);
        assert(sq(34) == 128);
        assert(sq(128) == 193);
        assert(sq(193) == 241);
        assert(sq(241) == 256);
        assert(sq(256) == 1);
    } else if a == 89 {
        assert(sq(89) == 211);
        assert(sq(211) == 60);
        assert(sq(60) == 2);
        assert(sq(2) == 4);
        assert(sq(4) == 16);
        assert(sq(16) == 256);
        assert(sq(256) == 1);
    } else if a == 90 {
        assert(sq(90) == 133);
        assert(sq(133) == 213);
        assert(sq(213) == 137);
        assert(sq(137) == 8);
        assert(sq(8) == 64);
        assert(sq(64) == 241);
        assert(sq(241) == 256);
        assert(sq(256) == 1);
    } else if a == 91 {
        assert(sq(91) == 57);
        assert(sq(57) == 165);
        assert(sq(165) == 240);
        assert(sq(240) == 32);
        assert(sq(32) == 253);
        assert(sq(253) == 16);
        assert(sq(16) == 256);
        assert(sq(256) == 1);
    } else if a == 92 {
        assert(sq(92) == 240);
        assert(sq(240) == 32);
        assert(sq(32) == 253);
        assert(sq(253) == 16);
        assert(sq(16) == 256);
        assert(sq(256) == 1);
    } else if a == 93 {
        assert(sq(93) == 168);
        assert(sq(168) == 211);
        assert(sq(211) == 60);
        assert(sq(60) == 2);
        assert(sq(2) == 4);
        assert(sq(4) == 16);
        assert(sq(16) == 256);
        assert(sq(256) == 1);
    } else if a == 94 {
        assert(sq(94) == 98);
        assert(sq(98) == 95);
        assert(sq(95) == 30);
        assert(sq(30) == 129);
        assert(sq(129) == 193);
        assert(sq(193) == 241);
        assert(sq(241) == 256);
        assert(sq(256) == 1);
    } else if a == 95 {
        assert(sq(95) == 30);
        assert(sq(30) == 129);
        assert(sq(129) == 193);
        assert(sq(193) == 241);
        assert(sq(241) == 256);
        assert(sq(256) == 1);
    }
}

proof fn lemma_pow256_range_6(a: int)
    requires
        96 <= a < 112,
    ensures
        pow256_by_squaring(a) == 1,
{
    if a == 96 {
        assert(sq(96) == 221);
        assert(sq(221) == 11);
        assert(sq(11) == 121);
        assert(sq(121) == 249);
        assert(sq(249) == 64);
        assert(sq(64) == 241);
        assert(sq(241) == 256);
        assert(sq(256) == 1);
    } else if a == 97 {
        assert(sq(97) == 157);
        assert(sq(157) == 234);
        assert(sq(234) == 15);
        assert(sq(15) == 225);
        assert(sq(225) == 253);
        assert(sq(253) == 16);
        assert(sq(16) == 256);
        assert(sq(256) == 1);
    } else if a == 98 {
        assert(sq(98) == 95);
        assert(sq(95) == 30);
        assert(sq(30) == 129);
        assert(sq(129) == 193);
        assert(sq(193) == 241);
        assert(sq(241) == 256);
        assert(sq(256) == 1);
    } else if a == 99 {
        assert(sq(99) == 35);
        assert(sq(35) == 197);
        assert(sq(197) == 2);
        assert(sq(2) == 4);
        assert(sq(4) == 16);
        assert(sq(16) == 256);
        assert(sq(256) == 1);
    } else if a == 100 {
        assert(sq(100) == 234);
        assert(sq(234) == 15);
        assert(sq(15) == 225);
        assert(sq(225) == 253);
        assert(sq(253) == 16);
        assert(sq(16) == 256);
        assert(sq(256) == 1);
    } else if a == 101 {
        assert(sq(101) == 178);
        assert(sq(178) == 73);
        assert(sq(73) == 189);
        assert(sq(189) == 255);
        assert(sq(255) == 4);
        assert(sq(4) == 16);
        assert(sq(16) == 256);
        assert(sq(256) == 1);
    } else if a == 102 {
        assert(sq(102) == 124);
        assert(sq(124) == 213);
        assert(sq(213) == 137);
        assert(sq(137) == 8);
        assert(sq(8) == 64);
        assert(sq(64) == 241);
        assert(sq(241) == 256);
        assert(sq(256) == 1);
    } else if a == 103 {
        assert(sq(103) == 72);
        assert(sq(72) == 44);
        assert(sq(44) == 137);
        assert(sq(137) == 8);
        assert(sq(8) == 64);
        assert(sq(64) == 241);
        assert(sq(241) == 256);
        assert(sq(256) == 1);
    } else if a == 104 {
        assert(sq(104) == 22);
        assert(sq(22) == 227);
        assert(sq(227) == 129);
        assert(sq(129) == 193);
        assert(sq(193) == 241);
        assert(sq(241) == 256);
        assert(sq(256) == 1);
    } else if a == 105 {
        assert(sq(105) == 231);
        assert(sq(231) == 162);
        assert(sq(162) == 30);
        assert(sq(30) == 129);
        assert(sq(129) == 193);
        assert(sq(193) == 241);
        assert(sq(241) == 256);
        assert(sq(256) == 1);
    } else if a == 106 {
        assert(sq(106) == 185);
        assert(sq(185) == 44);
        assert(sq(44) == 137);
        assert(sq(137) == 8);
        assert(sq(8) == 64);
        assert(sq(64) == 241);
        assert(sq(241) == 256);
        assert(sq(256) == 1);
    } else if a == 107 {
        assert(sq(107) == 141);
        assert(sq(141) == 92);
        assert(sq(92) == 240);
        assert(sq(240) == 32);
        assert(sq(32) == 253);
        assert(sq(253) == 16);
        assert(sq(16) == 256);
        assert(sq(256) == 1);
    } else if a == 108 {
        assert(sq(108) == 99);
        assert(sq(99) == 35);
        assert(sq(35) == 197);
        assert(sq(197) == 2);
        assert(sq(2) == 4);
        assert(sq(4) == 16);
        assert(sq(16) == 256);
        assert(sq(256) == 1);
    } else if a == 109 {
        assert(sq(109) == 59);
        assert(sq(59) == 140);
        assert(sq(140) == 68);
        assert(sq(68) == 255);
        assert(sq(255) == 4);
        assert(sq(4) == 16);
        assert(sq(16) == 256);
        assert(sq(256) == 1);
    } else if a == 110 {
        assert(sq(110) == 21);
        assert(sq(21) == 184);
        assert(sq(184) == 189);
        assert(sq(189) == 255);
        assert(sq(255) == 4);
        assert(sq(4) == 16);
        assert(sq(16) == 256);
        assert(sq(256) == 1);
    } else if a == 111 {
        assert(sq(111) == 242);
        assert(sq(242) == 225);
        assert(sq(225) == 253);
        assert(sq(253) == 16);
        assert(sq(16) == 256);
        assert(sq(256) == 1);
    }
}

proof fn lemma_pow256_range_7(a: int)
    requires
        112 <= a < 128,
    ensures
        pow256_by_squaring(a) == 1,
{
    if a == 112 {
        assert(sq(112) == 208);
        assert(sq(208) == 88);
        assert(sq(88) == 34);
        assert(sq(34) == 128);
        assert(sq(128) == 193);
        assert(sq(193) == 241);
        assert(sq(241) == 256);
        assert(sq(256) == 1);
    } else if a == 113 {
        assert(sq(113) == 176);
        assert(sq(176) == 136);
        assert(sq(136) == 249);
        assert(sq(249) == 64);
        assert(sq(64) == 241);
        assert(sq(241) == 256);
        assert(sq(256) == 1);
    } else if a == 114 {
        assert(sq(114) == 146);
        assert(sq(146) == 242);
        assert(sq(242) == 225);
        assert(sq(225) == 253);
        assert(sq(253) == 16);
        assert(sq(16) == 256);
        assert(sq(256) == 1);
    } else if a == 115 {
        assert(sq(115) == 118);
        assert(sq(118) == 46);
        assert(sq(46) == 60);
        assert(sq(60) == 2);
        assert(sq(2) == 4);
        assert(sq(4) == 16);
        assert(sq(16) == 256);
        assert(sq(256) == 1);
    } else if a == 116 {
        assert(sq(116) == 92);
        assert(sq(92) == 240);
        assert(sq(240) == 32);
        assert(sq(32) == 253);
        assert(sq(253) == 16);
        assert(sq(16) == 256);
        assert(sq(256) == 1);
    } else if a == 117 {
        assert(sq(117) == 68);
        assert(sq(68) == 255);
        assert(sq(255) == 4);
        assert(sq(4) == 16);
        assert(sq(16) == 256);
        assert(sq(256) == 1);
    } else if a == 118 {
        assert(sq(118) == 46);
        assert(sq(46) == 60);
        assert(sq(60) == 2);
        assert(sq(2) == 4);
        assert(sq(4) == 16);
        assert(sq(16) == 256);
        assert(sq(256) == 1);
    } else if a == 119 {
        assert(sq(119) == 26);
        assert(sq(26) == 162);
        assert(sq(162) == 30);
        assert(sq(30) == 129);
        assert(sq(129) == 193);
        assert(sq(193) == 241);
        assert(sq(241) == 256);
        assert(sq(256) == 1);
    } else if a == 120 {
        assert(sq(120) == 8);
        assert(sq(8) == 64);
        assert(sq(64) == 241);
        assert(sq(241) == 256);
        assert(sq(256) == 1);
    } else if a == 121 {
        assert(sq(121) == 249);
        assert(sq(249) == 64);
        assert(sq(64) == 241);
        assert(sq(241) == 256);
        assert(sq(256) == 1);
    } else if a == 122 {
        assert(sq(122) == 235);
        assert(sq(235) == 227);
        assert(sq(227) == 129);
        assert(sq(129) == 193);
        assert(sq(193) == 241);
        assert(sq(241) == 256);
        assert(sq(256) == 1);
    } else if a == 123 {
        assert(sq(123) == 223);
        assert(sq(223) == 128);
        assert(sq(128) == 193);
        assert(sq(193) == 241);
        assert(sq(241) == 256);
        assert(sq(256) == 1);
    } else if a == 124 {
        assert(sq(124) == 213);
        assert(sq(213) == 137);
        assert(sq(137) == 8);
        assert(sq(8) == 64);
        assert(sq(64) == 241);
        assert(sq(241) == 256);
        assert(sq(256) == 1);
    } else if a == 125 {
        assert(sq(125) == 205);
        assert(sq(205) == 134);
        assert(sq(134) == 223);
        assert(sq(223) == 128);
        assert(sq(128) == 193);
        assert(sq(193) == 241);
        assert(sq(241) == 256);
        assert(sq(256) == 1);
    } else if a == 126 {
        assert(sq(126) == 199);
        assert(sq(199) == 23);
        assert(sq(23) == 15);
        assert(sq(15) == 225);
        assert(sq(225) == 253);
        assert(sq(253) == 16);
        assert(sq(16) == 256);
        assert(sq(256) == 1);
    } else if a == 127 {
        assert(sq(127) == 195);
        assert(sq(195) == 246);
        assert(sq(246) == 121);
        assert(sq(121) == 249);
        assert(sq(249) == 64);
        assert(sq(64) == 241);
        assert(sq(241) == 256);
        assert(sq(256) == 1);
    }
}

proof fn lemma_pow256_range_8(a: int)
    requires
        128 <= a < 144,
    ensures
        pow256_by_squaring(a) == 1,
{
    if a == 128 {
        assert(sq(128) == 193);
        assert(sq(193) == 241);
        assert(sq(241) == 256);
        assert(sq(256) == 1);
    } else if a == 129 {
        assert(sq(129) == 193);
        assert(sq(193) == 241);
        assert(sq(241) == 256);
        assert(sq(256) == 1);
    } else if a == 130 {
        assert(sq(130) == 195);
        assert(sq(195) == 246);
        assert(sq(246) == 121);
        assert(sq(121) == 249);
        assert(sq(249) == 64);
        assert(sq(64) == 241);
        assert(sq(241) == 256);
        assert(sq(256) == 1);
    } else if a == 131 {
        assert(sq(131) == 199);
        assert(sq(199) == 23);
        assert(sq(23) == 15);
        assert(sq(15) == 225);
        assert(sq(225) == 253);
        assert(sq(253) == 16);
        assert(sq(16) == 256);
        assert(sq(256) == 1);
    } else if a == 132 {
        assert(sq(132) == 205);
        assert(sq(205) == 134);
        assert(sq(134) == 223);
        assert(sq(223) == 128);
        assert(sq(128) == 193);
        assert(sq(193) == 241);
        assert(sq(241) == 256);
        assert(sq(256) == 1);
    } else if a == 133 {
        assert(sq(133) == 213);
        assert(sq(213) == 137);
        assert(sq(137) == 8);
        assert(sq(8) == 64);
        assert(sq(64) == 241);
        assert(sq(241) == 256);
        assert(sq(256) == 1);
    } else if a == 134 {
        assert(sq(134) == 223);
        assert(sq(223) == 128);
        assert(sq(128) == 193);
        assert(sq(193) == 241);
        assert(sq(241) == 256);
        assert(sq(256) == 1);
    } else if a == 135 {
        assert(sq(135) == 235);
        assert(sq(235) == 227);
        assert(sq(227) == 129);
        assert(sq(129) == 193);
        assert(sq(193) == 241);
        assert(sq(241) == 256);
        assert(sq(256) == 1);
    } else if a == 136 {
        assert(sq(136) == 249);
        assert(sq(249) == 64);
        assert(sq(64) == 241);
        assert(sq(241) == 256);
        assert(sq(256) == 1);
    } else if a == 137 {
        assert(sq(137) == 8);
        assert(sq(8) == 64);
        assert(sq(64) == 241);
        assert(sq(241) == 256);
        assert(sq(256) == 1);
    } else if a == 138 {
        assert(sq(138) == 26);
        assert(sq(26) == 162);
        assert(sq(162) == 30);
        assert(sq(30) == 129);
        assert(sq(129) == 193);
        assert(sq(193) == 241);
        assert(sq(241) == 256);
        assert(sq(256) == 1);
    } else if a == 139 {
        assert(sq(139) == 46);
        assert(sq(46) == 60);
        assert(sq(60) == 2);
        assert(sq(2) == 4);
        assert(sq(4) == 16);
        assert(sq(16) == 256);
        assert(sq(256) == 1);
    } else if a == 140 {
        assert(sq(140) == 68);
        assert(sq(68) == 255);
        assert(sq(255) == 4);
        assert(sq(4) == 16);
        assert(sq(16) == 256);
        assert(sq(256) == 1);
    } else if a == 141 {
        assert(sq(141) == 92);
        assert(sq(92) == 240);
        assert(sq(240) == 32);
        assert(sq(32) == 253);
        assert(sq(253) == 16);
        assert(sq(16) == 256);
        assert(sq(256) == 1);
    } else if a == 142 {
        assert(sq(142) == 118);
        assert(sq(118) == 46);
        assert(sq(46) == 60);
        assert(sq(60) == 2);
        assert(sq(2) == 4);
        assert(sq(4) == 16);
        assert(sq(16) == 256);
        assert(sq(256) == 1);
    } else if a == 143 {
        assert(sq(143) == 146);
        assert(sq(146) == 242);
        assert(sq(242) == 225);
        assert(sq(225) == 253);
        assert(sq(253) == 16);
        assert(sq(16) == 256);
        assert(sq(256) == 1);
    }
}

proof fn lemma_pow256_range_9(a: int)
    requires
        144 <= a < 160,
    ensures
        pow256_by_squaring(a) == 1,
{
    if a == 144 {
        assert(sq(144) == 176);
        assert(sq(176) == 136);
        assert(sq(136) == 249);
        assert(sq(249) == 64);
        assert(sq(64) == 241);
        assert(sq(241) == 256);
        assert(sq(256) == 1);
    } else if a == 145 {
        assert(sq(145) == 208);
        assert(sq(208) == 88);
        assert(sq(88) == 34);
        assert(sq(34) == 128);
        assert(sq(128) == 193);
        assert(sq(193) == 241);
        assert(sq(241) == 256);
        assert(sq(256) == 1);
    } else if a == 146 {
        assert(sq(146) == 242);
        assert(sq(242) == 225);
        assert(sq(225) == 253);
        assert(sq(253) == 16);
        assert(sq(16) == 256);
        assert(sq(256) == 1);
    } else if a == 147 {
        assert(sq(147) == 21);
        assert(sq(21) == 184);
        assert(sq(184) == 189);
        assert(sq(189) == 255);
        assert(sq(255) == 4);
        assert(sq(4) == 16);
        assert(sq(16) == 256);
        assert(sq(256) == 1);
    } else if a == 148 {
        assert(sq(148) == 59);
        assert(sq(59) == 140);
        assert(sq(140) == 68);
        assert(sq(68) == 255);
        assert(sq(255) == 4);
        assert(sq(4) == 16);
        assert(sq(16) == 256);
        assert(sq(256) == 1);
    } else if a == 149 {
        assert(sq(149) == 99);
        assert(sq(99) == 35);
        assert(sq(35) == 197);
        assert(sq(197) == 2);
        assert(sq(2) == 4);
        assert(sq(4) == 16);
        assert(sq(16) == 256);
        assert(sq(256) == 1);
    } else if a == 150 {
        assert(sq(150) == 141);
        assert(sq(141) == 92);
        assert(sq(92) == 240);
        assert(sq(240) == 32);
        assert(sq(32) == 253);
        assert(sq(253) == 16);
        assert(sq(16) == 256);
        assert(sq(256) == 1);
    } else if a == 151 {
        assert(sq(151) == 185);
        assert(sq(185) == 44);
        assert(sq(44) == 137);
        assert(sq(137) == 8);
        assert(sq(8) == 64);
        assert(sq(64) == 241);
        assert(sq(241) == 256);
        assert(sq(256) == 1);
    } else if a == 152 {
        assert(sq(152) == 231);
        assert(sq(231) == 162);
        assert(sq(162) == 30);
        assert(sq(30) == 129);
        assert(sq(129) == 193);
        assert(sq(193) == 241);
        assert(sq(241) == 256);
        assert(sq(256) == 1);
    } else if a == 153 {
        assert(sq(153) == 22);
        assert(sq(22) == 227);
        assert(sq(227) == 129);
        assert(sq(129) == 193);
        assert(sq(193) == 241);
        assert(sq(241) == 256);
        assert(sq(256) == 1);
    } else if a == 154 {
        assert(sq(154) == 72);
        assert(sq(72) == 44);
        assert(sq(44) == 137);
        assert(sq(137) == 8);
        assert(sq(8) == 64);
        assert(sq(64) == 241);
        assert(sq(241) == 256);
        assert(sq(256) == 1);
    } else if a == 155 {
        assert(sq(155) == 124);
        assert(sq(124) == 213);
        assert(sq(213) == 137);
        assert(sq(137) == 8);
        assert(sq(8) == 64);
        assert(sq(64) == 241);
        assert(sq(241) == 256);
        assert(sq(256) == 1);
    } else if a == 156 {
        assert(sq(156) == 178);
        assert(sq(178) == 73);
        assert(sq(73) == 189);
        assert(sq(189) == 255);
        assert(sq(255) == 4);
        assert(sq(4) == 16);
        assert(sq(16) == 256);
        assert(sq(256) == 1);
    } else if a == 157 {
        assert(sq(157) == 234);
        assert(sq(234) == 15);
        assert(sq(15) == 225);
        assert(sq(225) == 253);
        assert(sq(253) == 16);
        assert(sq(16) == 256);
        assert(sq(256) == 1);
    } else if a == 158 {
        assert(sq(158) == 35);
        assert(sq(35) == 197);
        assert(sq(197) == 2);
        assert(sq(2) == 4);
        assert(sq(4) == 16);
        assert(sq(16) == 256);
        assert(sq(256) == 1);
    } else if a == 159 {
        assert(sq(159) == 95);
        assert(sq(95) == 30);
        assert(sq(30) == 129);
        assert(sq(129) == 193);
        assert(sq(193) == 241);
        assert(sq(241) == 256);
        assert(sq(256) == 1);
    }
}

proof fn lemma_pow256_range_10(a: int)
    requires
        160 <= a < 176,
    ensures
        pow256_by_squaring(a) == 1,
{
    if a == 160 {
        assert(sq(160) == 157);
        assert(sq(157) == 234);
        assert(sq(234) == 15);
        assert(sq(15) == 225);
        assert(sq(225) == 253);
        assert(sq(253) == 16);
        assert(sq(16) == 256);
        assert(sq(256) == 1);
    } else if a == 161 {
        assert(sq(161) == 221);
        assert(sq(221) == 11);
        assert(sq(11) == 121);
        assert(sq(121) == 249);
        assert(sq(249) == 64);
        assert(sq(64) == 241);
        assert(sq(241) == 256);
        assert(sq(256) == 1);
    } else if a == 162 {
        assert(sq(162) == 30);
        assert(sq(30) == 129);
        assert(sq(129) == 193);
        assert(sq(193) == 241);
        assert(sq(241) == 256);
        assert(sq(256) == 1);
    } else if a == 163 {
        assert(sq(163) == 98);
        assert(sq(98) == 95);
        assert(sq(95) == 30);
        assert(sq(30) == 129);
        assert(sq(129) == 193);
        assert(sq(193) == 241);
        assert(sq(241) == 256);
        assert(sq(256) == 1);
    } else if a == 164 {
        assert(sq(164) == 168);
        assert(sq(168) == 211);
        assert(sq(211) == 60);
        assert(sq(60) == 2);
        assert(sq(2) == 4);
        assert(sq(4) == 16);
        assert(sq(16) == 256);
        assert(sq(256) == 1);
    } else if a == 165 {
        assert(sq(165) == 240);
        assert(sq(240) == 32);
        assert(sq(32) == 253);
        assert(sq(253) == 16);
        assert(sq(16) == 256);
        assert(sq(256) == 1);
    } else if a == 166 {
        assert(sq(166) == 57);
        assert(sq(57) == 165);
        assert(sq(165) == 240);
        assert(sq(240) == 32);
        assert(sq(32) == 253);
        assert(sq(253) == 16);
        assert(sq(16) == 256);
        assert(sq(256) == 1);
    } else if a == 167 {
        assert(sq(167) == 133);
        assert(sq(133) == 213);
        assert(sq(213) == 137);
        assert(sq(137) == 8);
        assert(sq(8) == 64);
        assert(sq(64) == 241);
        assert(sq(241) == 256);
        assert(sq(256) == 1);
    } else if a == 168 {
        assert(sq(168) == 211);
        assert(sq(211) == 60);
        assert(sq(60) == 2);
        assert(sq(2) == 4);
        assert(sq(4) == 16);
        assert(sq(16) == 256);
        assert(sq(256) == 1);
    } else if a == 169 {
        assert(sq(169) == 34);
        assert(sq(34) == 128);
        assert(sq(128) == 193);
        assert(sq(193) == 241);
        assert(sq(241) == 256);
        assert(sq(256) == 1);
    } else if a == 170 {
        assert(sq(170) == 116);
        assert(sq(116) == 92);
        assert(sq(92) == 240);
        assert(sq(240) == 32);
        assert(sq(32) == 253);
        assert(sq(253) == 16);
        assert(sq(16) == 256);
        assert(sq(256) == 1);
    } else if a == 171 {
        assert(sq(171) == 200);
        assert(sq(200) == 165);
        assert(sq(165) == 240);
        assert(sq(240) == 32);
        assert(sq(32) == 253);
        assert(sq(253) == 16);
        assert(sq(16) == 256);
        assert(sq(256) == 1);
    } else if a == 172 {
        assert(sq(172) == 29);
        assert(sq(29) == 70);
        assert(sq(70) == 17);
        assert(sq(17) == 32);
        assert(sq(32) == 253);
        assert(sq(253) == 16);
        assert(sq(16) == 256);
        assert(sq(256) == 1);
    } else if a == 173 {
        assert(sq(173) == 117);
        assert(sq(117) == 68);
        assert(sq(68) == 255);
        assert(sq(255) == 4);
        assert(sq(4) == 16);
        assert(sq(16) == 256);
        assert(sq(256) == 1);
    } else if a == 174 {
        assert(sq(174) == 207);
        assert(sq(207) == 187);
        assert(sq(187) == 17);
        assert(sq(17) == 32);
        assert(sq(32) == 253);
        assert(sq(253) == 16);
        assert(sq(16) == 256);
        assert(sq(256) == 1);
    } else if a == 175 {
        assert(sq(175) == 42);
        assert(sq(42) == 222);
        assert(sq(222) == 197);
        assert(sq(197) == 2);
        assert(sq(2) == 4);
        assert(sq(4) == 16);
        assert(sq(16) == 256);
        assert(sq(256) == 1);
    }
}

proof fn lemma_pow256_range_11(a: int)
    requires
        176 <= a < 192,
    ensures
        pow256_by_squaring(a) == 1,
{
    if a == 176 {
        assert(sq(176) == 136);
        assert(sq(136) == 249);
        assert(sq(249) == 64);
        assert(sq(64) == 241);
        assert(sq(241) == 256);
        assert(sq(256) == 1);
    } else if a == 177 {
        assert(sq(177) == 232);
        assert(sq(232) == 111);
        assert(sq(111) == 242);
        assert(sq(242) == 225);
        assert(sq(225) == 253);
        assert(sq(253) == 16);
        assert(sq(16) == 256);
        assert(sq(256) == 1);
    } else if a == 178 {
        assert(sq(178) == 73);
        assert(sq(73) == 189);
        assert(sq(189) == 255);
        assert(sq(255) == 4);
        assert(sq(4) == 16);
        assert(sq(16) == 256);
        assert(sq(256) == 1);
    } else if a == 179 {
        assert(sq(179) == 173);
        assert(sq(173) == 117);
        assert(sq(117) == 68);
        assert(sq(68) == 255);
        assert(sq(255) == 4);
        assert(sq(4) == 16);
        assert(sq(16) == 256);
        assert(sq(256) == 1);
    } else if a == 180 {
        assert(sq(180) == 18);
        assert(sq(18) == 67);
        assert(sq(67) == 120);
        assert(sq(120) == 8);
        assert(sq(8) == 64);
        assert(sq(64) == 241);
        assert(sq(241) == 256);
        assert(sq(256) == 1);
    } else if a == 181 {
        assert(sq(181) == 122);
        assert(sq(122) == 235);
        assert(sq(235) == 227);
        assert(sq(227) == 129);
        assert(sq(129) == 193);
        assert(sq(193) == 241);
        assert(sq(241) == 256);
        assert(sq(256) == 1);
    } else if a == 182 {
        assert(sq(182) == 228);
        assert(sq(228) == 70);
        assert(sq(70) == 17);
        assert(sq(17) == 32);
        assert(sq(32) == 253);
        assert(sq(253) == 16);
        assert(sq(16) == 256);
        assert(sq(256) == 1);
    } else if a == 183 {
        assert(sq(183) == 79);
        assert(sq(79) == 73);
        assert(sq(73) == 189);
        assert(sq(189) == 255);
        assert(sq(255) == 4);
        assert(sq(4) == 16);
        assert(sq(16) == 256);
        assert(sq(256) == 1);
    } else if a == 184 {
        assert(sq(184) == 189);
        assert(sq(189) == 255);
        assert(sq(255) == 4);
        assert(sq(4) == 16);
        assert(sq(16) == 256);
        assert(sq(256) == 1);
    } else if a == 185 {
        assert(sq(185) == 44);
        assert(sq(44) == 137);
        assert(sq(137) == 8);
        assert(sq(8) == 64);
        assert(sq(64) == 241);
        assert(sq(241) == 256);
        assert(sq(256) == 1);
    } else if a == 186 {
        assert(sq(186) == 158);
        assert(sq(158) == 35);
        assert(sq(35) == 197);
        assert(sq(197) == 2);
        assert(sq(2) == 4);
        assert(sq(4) == 16);
        assert(sq(16) == 256);
        assert(sq(256) == 1);
    } else if a == 187 {
        assert(sq(187) == 17);
        assert(sq(17) == 32);
        assert(sq(32) == 253);
        assert(sq(253) == 16);
        assert(sq(16) == 256);
        assert(sq(256) == 1);
    } else if a == 188 {
        assert(sq(188) == 135);
        assert(sq(135) == 235);
        assert(sq(235) == 227);
        assert(sq(227) == 129);
        assert(sq(129) == 193);
        assert(sq(193) == 241);
        assert(sq(241) == 256);
        assert(sq(256) == 1);
    } else if a == 189 {
        assert(sq(189) == 255);
        assert(sq(255) == 4);
        assert(sq(4) == 16);
        assert(sq(16) == 256);
        assert(sq(256) == 1);
    } else if a == 190 {
        assert(sq(190) == 120);
        assert(sq(120) == 8);
        assert(sq(8) == 64);
        assert(sq(64) == 241);
        assert(sq(241) == 256);
        assert(sq(256) == 1);
    } else if a == 191 {
        assert(sq(191) == 244);
        assert(sq(244) == 169);
        assert(sq(169) == 34);
        assert(sq(34) == 128);
        assert(sq(128) == 193);
        assert(sq(193) == 241);
        assert(sq(241) == 256);
        assert(sq(256) == 1);
    }
}

proof fn lemma_pow256_range_12(a: int)
    requires
        192 <= a < 208,
    ensures
        pow256_by_squaring(a) == 1,
{
    if a == 192 {
        assert(sq(192) == 113);
        assert(sq(113) == 176);
        assert(sq(176) == 136);
        assert(sq(136) == 249);
        assert(sq(249) == 64);
        assert(sq(64) == 241);
        assert(sq(241) == 256);
        assert(sq(256) == 1);
    } else if a == 193 {
        assert(sq(193) == 241);
        assert(sq(241) == 256);
        assert(sq(256) == 1);
    } else if a == 194 {
        assert(sq(194) == 114);
        assert(sq(114) == 146);
        assert(sq(146) == 242);
        assert(sq(242) == 225);
        assert(sq(225) == 253);
        assert(sq(253) == 16);
        assert(sq(16) == 256);
        assert(sq(256) == 1);
    } else if a == 195 {
        assert(sq(195) == 246);
        assert(sq(246) == 121);
        assert(sq(121) == 249);
        assert(sq(249) == 64);
        assert(sq(64) == 241);
        assert(sq(241) == 256);
        assert(sq(256) == 1);
    } else if a == 196 {
        assert(sq(196) == 123);
        assert(sq(123) == 223);
        assert(sq(223) == 128);
        assert(sq(128) == 193);
        assert(sq(193) == 241);
        assert(sq(241) == 256);
        assert(sq(256) == 1);
    } else if a == 197 {
        assert(sq(197) == 2);
        assert(sq(2) == 4);
        assert(sq(4) == 16);
        assert(sq(16) == 256);
        assert(sq(256) == 1);
    } else if a == 198 {
        assert(sq(198) == 140);
        assert(sq(140) == 68);
        assert(sq(68) == 255);
        assert(sq(255) == 4);
        assert(sq(4) == 16);
        assert(sq(16) == 256);
        assert(sq(256) == 1);
    } else if a == 199 {
        assert(sq(199) == 23);
        assert(sq(23) == 15);
        assert(sq(15) == 225);
        assert(sq(225) == 253);
        assert(sq(253) == 16);
        assert(sq(16) == 256);
        assert(sq(256) == 1);
    } else if a == 200 {
        assert(sq(200) == 165);
        assert(sq(165) == 240);
        assert(sq(240) == 32);
        assert(sq(32) == 253);
        assert(sq(253) == 16);
        assert(sq(16) == 256);
        assert(sq(256) == 1);
    } else if a == 201 {
        assert(sq(201) == 52);
        assert(sq(52) == 134);
        assert(sq(134) == 223);
        assert(sq(223) == 128);
        assert(sq(128) == 193);
        assert(sq(193) == 241);
        assert(sq(241) == 256);
        assert(sq(256) == 1);
    } else if a == 202 {
        assert(sq(202) == 198);
        assert(sq(198) == 140);
        assert(sq(140) == 68);
        assert(sq(68) == 255);
        assert(sq(255) == 4);
        assert(sq(4) == 16);
        assert(sq(16) == 256);
        assert(sq(256) == 1);
    } else if a == 203 {
        assert(sq(203) == 89);
        assert(sq(89) == 211);
        assert(sq(211) == 60);
        assert(sq(60) == 2);
        assert(sq(2) == 4);
        assert(sq(4) == 16);
        assert(sq(16) == 256);
        assert(sq(256) == 1);
    } else if a == 204 {
        assert(sq(204) == 239);
        assert(sq(239) == 67);
        assert(sq(67) == 120);
        assert(sq(120) == 8);
        assert(sq(8) == 64);
        assert(sq(64) == 241);
        assert(sq(241) == 256);
        assert(sq(256) == 1);
    } else if a == 205 {
        assert(sq(205) == 134);
        assert(sq(134) == 223);
        assert(sq(223) == 128);
        assert(sq(128) == 193);
        assert(sq(193) == 241);
        assert(sq(241) == 256);
        assert(sq(256) == 1);
    } else if a == 206 {
        assert(sq(206) == 31);
        assert(sq(31) == 190);
        assert(sq(190) == 120);
        assert(sq(120) == 8);
        assert(sq(8) == 64);
        assert(sq(64) == 241);
        assert(sq(241) == 256);
        assert(sq(256) == 1);
    } else if a == 207 {
        assert(sq(207) == 187);
        assert(sq(187) == 17);
        assert(sq(17) == 32);
        assert(sq(32) == 253);
        assert(sq(253) == 16);
        assert(sq(16) == 256);
        assert(sq(256) == 1);
    }
}

proof fn lemma_pow256_range_13(a: int)
    requires
        208 <= a < 224,
    ensures
        pow256_by_squaring(a) == 1,
{
    if a == 208 {
        assert(sq(208) == 88);
        assert(sq(88) == 34);
        assert(sq(34) == 128);
        assert(sq(128) == 193);
        assert(sq(193) == 241);
        assert(sq(241) == 256);
        assert(sq(256) == 1);
    } else if a == 209 {
        assert(sq(209) == 248);
        assert(sq(248) == 81);
        assert(sq(81) == 136);
        assert(sq(136) == 249);
        assert(sq(249) == 64);
        assert(sq(64) == 241);
        assert(sq(241) == 256);
        assert(sq(256) == 1);
    } else if a == 210 {
        assert(sq(210) == 153);
        assert(sq(153) == 22);
        assert(sq(22) == 227);
        assert(sq(227) == 129);
        assert(sq(129) == 193);
        assert(sq(193) == 241);
        assert(sq(241) == 256);
        assert(sq(256) == 1);
    } else if a == 211 {
        assert(sq(211) == 60);
        assert(sq(60) == 2);
        assert(sq(2) == 4);
        assert(sq(4) == 16);
        assert(sq(16) == 256);
        assert(sq(256) == 1);
    } else if a == 212 {
        assert(sq(212) == 226);
        assert(sq(226) == 190);
        assert(sq(190) == 120);
        assert(sq(120) == 8);
        assert(sq(8) == 64);
        assert(sq(64) == 241);
        assert(sq(241) == 256);
        assert(sq(256) == 1);
    } else if a == 213 {
        assert(sq(213) == 137);
        assert(sq(137) == 8);
        assert(sq(8) == 64);
        assert(sq(64) == 241);
        assert(sq(241) == 256);
        assert(sq(256) == 1);
    } else if a == 214 {
        assert(sq(214) == 50);
        assert(sq(50) == 187);
        assert(sq(187) == 17);
        assert(sq(17) == 32);
        assert(sq(32) == 253);
        assert(sq(253) == 16);
        assert(sq(16) == 256);
        assert(sq(256) == 1);
    } else if a == 215 {
        assert(sq(215) == 222);
        assert(sq(222) == 197);
        assert(sq(197) == 2);
        assert(sq(2) == 4);
        assert(sq(4) == 16);
        assert(sq(16) == 256);
        assert(sq(256) == 1);
    } else if a == 216 {
        assert(sq(216) == 139);
        assert(sq(139) == 46);
        assert(sq(46) == 60);
        assert(sq(60) == 2);
        assert(sq(2) == 4);
        assert(sq(4) == 16);
        assert(sq(16) == 256);
        assert(sq(256) == 1);
    } else if a == 217 {
        assert(sq(217) == 58);
        assert(sq(58) == 23);
        assert(sq(23) == 15);
        assert(sq(15) == 225);
        assert(sq(225) == 253);
        assert(sq(253) == 16);
        assert(sq(16) == 256);
        assert(sq(256) == 1);
    } else if a == 218 {
        assert(sq(218) == 236);
        assert(sq(236) == 184);
        assert(sq(184) == 189);
        assert(sq(189) == 255);
        assert(sq(255) == 4);
        assert(sq(4) == 16);
        assert(sq(16) == 256);
        assert(sq(256) == 1);
    } else if a == 219 {
        assert(sq(219) == 159);
        assert(sq(159) == 95);
        assert(sq(95) == 30);
        assert(sq(30) == 129);
        assert(sq(129) == 193);
        assert(sq(193) == 241);
        assert(sq(241) == 256);
        assert(sq(256) == 1);
    } else if a == 220 {
        assert(sq(220) == 84);
        assert(sq(84) == 117);
        assert(sq(117) == 68);
        assert(sq(68) == 255);
        assert(sq(255) == 4);
        assert(sq(4) == 16);
        assert(sq(16) == 256);
        assert(sq(256) == 1);
    } else if a == 221 {
        assert(sq(221) == 11);
        assert(sq(11) == 121);
        assert(sq(121) == 249);
        assert(sq(249) == 64);
        assert(sq(64) == 241);
        assert(sq(241) == 256);
        assert(sq(256) == 1);
    } else if a == 222 {
        assert(sq(222) == 197);
        assert(sq(197) == 2);
        assert(sq(2) == 4);
        assert(sq(4) == 16);
        assert(sq(16) == 256);
        assert(sq(256) == 1);
    } else if a == 223 {
        assert(sq(223) == 128);
        assert(sq(128) == 193);
        assert(sq(193) == 241);
        assert(sq(241) == 256);
        assert(sq(256) == 1);
    }
}

proof fn lemma_pow256_range_14(a: int)
    requires
        224 <= a < 240,
    ensures
        pow256_by_squaring(a) == 1,
{
    if a == 224 {
        assert(sq(224) == 61);
        assert(sq(61) == 123);
        assert(sq(123) == 223);
        assert(sq(223) == 128);
        assert(sq(128) == 193);
        assert(sq(193) == 241);
        assert(sq(241) == 256);
        assert(sq(256) == 1);
    } else if a == 225 {
        assert(sq(225) == 253);
        assert(sq(253) == 16);
        assert(sq(16) == 256);
        assert(sq(256) == 1);
    } else if a == 226 {
        assert(sq(226) == 190);
        assert(sq(190) == 120);
        assert(sq(120) == 8);
        assert(sq(8) == 64);
        assert(sq(64) == 241);
        assert(sq(241) == 256);
        assert(sq(256) == 1);
    } else if a == 227 {
        assert(sq(227) == 129);
        assert(sq(129) == 193);
        assert(sq(193) == 241);
        assert(sq(241) == 256);
        assert(sq(256) == 1);
    } else if a == 228 {
        assert(sq(228) == 70);
        assert(sq(70) == 17);
        assert(sq(17) == 32);
        assert(sq(32) == 253);
        assert(sq(253) == 16);
        assert(sq(16) == 256);
        assert(sq(256) == 1);
    } else if a == 229 {
        assert(sq(229) == 13);
        assert(sq(13) == 169);
        assert(sq(169) == 34);
        assert(sq(34) == 128);
        assert(sq(128) == 193);
        assert(sq(193) == 241);
        assert(sq(241) == 256);
        assert(sq(256) == 1);
    } else if a == 230 {
        assert(sq(230) == 215);
        assert(sq(215) == 222);
        assert(sq(222) == 197);
        assert(sq(197) == 2);
        assert(sq(2) == 4);
        assert(sq(4) == 16);
        assert(sq(16) == 256);
        assert(sq(256) == 1);
    } else if a == 231 {
        assert(sq(231) == 162);
        assert(sq(162) == 30);
        assert(sq(30) == 129);
        assert(sq(129) == 193);
        assert(sq(193) == 241);
        assert(sq(241) == 256);
        assert(sq(256) == 1);
    } else if a == 232 {
        assert(sq(232) == 111);
        assert(sq(111) == 242);
        assert(sq(242) == 225);
        assert(sq(225) == 253);
        assert(sq(253) == 16);
        assert(sq(16) == 256);
        assert(sq(256) == 1);
    } else if a == 233 {
        assert(sq(233) == 62);
        assert(sq(62) == 246);
        assert(sq(246) == 121);
        assert(sq(121) == 249);
        assert(sq(249) == 64);
        assert(sq(64) == 241);
        assert(sq(241) == 256);
        assert(sq(256) == 1);
    } else if a == 234 {
        assert(sq(234) == 15);
        assert(sq(15) == 225);
        assert(sq(225) == 253);
        assert(sq(253) == 16);
        assert(sq(16) == 256);
        assert(sq(256) == 1);
    } else if a == 235 {
        assert(sq(235) == 227);
        assert(sq(227) == 129);
        assert(sq(129) == 193);
        assert(sq(193) == 241);
        assert(sq(241) == 256);
        assert(sq(256) == 1);
    } else if a == 236 {
        assert(sq(236) == 184);
        assert(sq(184) == 189);
        assert(sq(189) == 255);
        assert(sq(255) == 4);
        assert(sq(4) == 16);
        assert(sq(16) == 256);
        assert(sq(256) == 1);
    } else if a == 237 {
        assert(sq(237) == 143);
        assert(sq(143) == 146);
        assert(sq(146) == 242);
        assert(sq(242) == 225);
        assert(sq(225) == 253);
        assert(sq(253) == 16);
        assert(sq(16) == 256);
        assert(sq(256) == 1);
    } else if a == 238 {
        assert(sq(238) == 104);
        assert(sq(104) == 22);
        assert(sq(22) == 227);
        assert(sq(227) == 129);
        assert(sq(129) == 193);
        assert(sq(193) == 241);
        assert(sq(241) == 256);
        assert(sq(256) == 1);
    } else if a == 239 {
        assert(sq(239) == 67);
        assert(sq(67) == 120);
        assert(sq(120) == 8);
        assert(sq(8) == 64);
        assert(sq(64) == 241);
        assert(sq(241) == 256);
        assert(sq(256) == 1);
    }
}

proof fn lemma_pow256_range_15(a: int)
    requires
        240 <= a < 257,
    ensures
        pow256_by_squaring(a) == 1,
{
    if a == 240 {
        assert(sq(240) == 32);
        assert(sq(32) == 253);
        assert(sq(253) == 16);
        assert(sq(16) == 256);
        assert(sq(256) == 1);
    } else if a == 241 {
        assert(sq(241) == 256);
        assert(sq(256) == 1);
    } else if a == 242 {
        assert(sq(242) == 225);
        assert(sq(225) == 253);
        assert(sq(253) == 16);
        assert(sq(16) == 256);
        assert(sq(256) == 1);
    } else if a == 243 {
        assert(sq(243) == 196);
        assert(sq(196) == 123);
        assert(sq(123) == 223);
        assert(sq(223) == 128);
        assert(sq(128) == 193);
        assert(sq(193) == 241);
        assert(sq(241) == 256);
        assert(sq(256) == 1);
    } else if a == 244 {
        assert(sq(244) == 169);
        assert(sq(169) == 34);
        assert(sq(34) == 128);
        assert(sq(128) == 193);
        assert(sq(193) == 241);
        assert(sq(241) == 256);
        assert(sq(256) == 1);
    } else if a == 245 {
        assert(sq(245) == 144);
        assert(sq(144) == 176);
        assert(sq(176) == 136);
        assert(sq(136) == 249);
        assert(sq(249) == 64);
        assert(sq(64) == 241);
        assert(sq(241) == 256);
        assert(sq(256) == 1);
    } else if a == 246 {
        assert(sq(246) == 121);
        assert(sq(121) == 249);
        assert(sq(249) == 64);
        assert(sq(64) == 241);
        assert(sq(241) == 256);
        assert(sq(256) == 1);
    } else if a == 247 {
        assert(sq(247) == 100);
        assert(sq(100) == 234);
        assert(sq(234) == 15);
        assert(sq(15) == 225);
        assert(sq(225) == 253);
        assert(sq(253) == 16);
        assert(sq(16) == 256);
        assert(sq(256) == 1);
    } else if a == 248 {
        assert(sq(248) == 81);
        assert(sq(81) == 136);
        assert(sq(136) == 249);
        assert(sq(249) == 64);
        assert(sq(64) == 241);
        assert(sq(241) == 256);
        assert(sq(256) == 1);
    } else if a == 249 {
        assert(sq(249) == 64);
        assert(sq(64) == 241);
        assert(sq(241) == 256);
        assert(sq(256) == 1);
    } else if a == 250 {
        assert(sq(250) == 49);
        assert(sq(49) == 88);
        assert(sq(88) == 34);
        assert(sq(34) == 128);
        assert(sq(128) == 193);
        assert(sq(193) == 241);
        assert(sq(241) == 256);
        assert(sq(256) == 1);
    } else if a == 251 {
        assert(sq(251) == 36);
        assert(sq(36) == 11);
        assert(sq(11) == 121);
        assert(sq(121) == 249);
        assert(sq(249) == 64);
        assert(sq(64) == 241);
        assert(sq(241) == 256);
        assert(sq(256) == 1);
    } else if a == 252 {
        assert(sq(252) == 25);
        assert(sq(25) == 111);
        assert(sq(111) == 242);
        assert(sq(242) == 225);
        assert(sq(225) == 253);
        assert(sq(253) == 16);
        assert(sq(16) == 256);
        assert(sq(256) == 1);
    } else if a == 253 {
        assert(sq(253) == 16);
        assert(sq(16) == 256);
        assert(sq(256) == 1);
    } else if a == 254 {
        assert(sq(254) == 9);
        assert(sq(9) == 81);
        assert(sq(81) == 136);
        assert(sq(136) == 249);
        assert(sq(249) == 64);
        assert(sq(64) == 241);
        assert(sq(241) == 256);
        assert(sq(256) == 1);
    } else if a == 255 {
        assert(sq(255) == 4);
        assert(sq(4) == 16);
        assert(sq(16) == 256);
        assert(sq(256) == 1);
    } else if a == 256 {
        assert(sq(256) == 1);
    }
}

/// `a^256 = 1`, checked by squaring for each non-zero residue.
proof fn lemma_pow256(a: int)
    requires
        1 <= a < 257,
    ensures
        pow256_by_squaring(a) == 1,
{
    if a < 16 {
        lemma_pow256_range_0(a);
    } else if a < 32 {
        lemma_pow256_range_1(a);
    } else if a < 48 {
        lemma_pow256_range_2(a);
    } else if a < 64 {
        lemma_pow256_range_3(a);
    } else if a < 80 {
        lemma_pow256_range_4(a);
    } else if a < 96 {
        lemma_pow256_range_5(a);
    } else if a < 112 {
        lemma_pow256_range_6(a);
    } else if a < 128 {
        lemma_pow256_range_7(a);
    } else if a < 144 {
        lemma_pow256_range_8(a);
    } else if a < 160 {
        lemma_pow256_range_9(a);
    } else if a < 176 {
        lemma_pow256_range_10(a);
    } else if a < 192 {
        lemma_pow256_range_11(a);
    } else if a < 208 {
        lemma_pow256_range_12(a);
    } else if a < 224 {
        lemma_pow256_range_13(a);
    } else if a < 240 {
        lemma_pow256_range_14(a);
    } else {
        lemma_pow256_range_15(a);
    }
}

/// Fermat's little theorem for the prime 257: `a^256 = 1` for every non-zero `a`.
pub proof fn lemma_fermat(a: int)
    requires
        1 <= a < 257,
    ensures
        zpow(a, 256) == 1,
{
    reveal_with_fuel(zpow, 2);
    assert(zpow(a, 1) == fmul(a, 1));
    lemma_small_mod(a as nat, 257);
    lemma_zpow_double(a, 1);
    lemma_zpow_double(a, 2);
    lemma_zpow_double(a, 4);
    lemma_zpow_double(a, 8);
    lemma_zpow_double(a, 16);
    lemma_zpow_double(a, 32);
    lemma_zpow_double(a, 64);
    lemma_zpow_double(a, 128);
    lemma_pow256(a);
}

/// A non-zero element times its Fermat inverse is one.
pub proof fn lemma_mul_finv(a: int)
    requires
        1 <= a < 257,
    ensures
        fmul(a, finv(a)) == 1,
{
    lemma_fermat(a);
    assert(zpow(a, 256) == fmul(a, zpow(a, 255)));
}

} // verus!
